use nova_go::runtime::vm::support::last_subslice_index;

#[test]
fn last_subslice_index_matches_go_style_empty_and_missing_cases() {
    assert_eq!(last_subslice_index(b"nova-go-go", b"go"), Some(8));
    assert_eq!(last_subslice_index(b"nova", b""), Some(4));
    assert_eq!(last_subslice_index(b"nova", b"vm"), None);
}

#[test]
fn last_subslice_index_handles_nil_equivalent_empty_slice_inputs() {
    assert_eq!(last_subslice_index(b"", b""), Some(0));
    assert_eq!(last_subslice_index(b"", b"x"), None);
}
