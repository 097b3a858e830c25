use flowshare_core::encoding::{uuid_parse, uuid_string};

const ID: [u8; 16] = [
    0x67, 0xe5, 0x50, 0x44, 0x10, 0xb1, 0x42, 0x6f, 0x92, 0x47, 0xbb, 0x68, 0x0e, 0x5f, 0xe0, 0xc8,
];

#[test]
fn identifiers_are_written_with_hyphens_and_read_back() {
    let text = uuid_string(&ID);
    assert_eq!(text, "67e55044-10b1-426f-9247-bb680e5fe0c8");
    assert_eq!(uuid_parse(&text), Some(ID));
}

#[test]
fn identifiers_are_read_in_four_forms_and_in_either_case() {
    for text in [
        "67e5504410b1426f9247bb680e5fe0c8",
        "67E55044-10B1-426F-9247-BB680E5FE0C8",
        "{67e55044-10b1-426f-9247-bb680e5fe0c8}",
        "urn:uuid:67e55044-10b1-426f-9247-bb680e5fe0c8",
        "URN:Uuid:67e55044-10b1-426f-9247-bb680e5fe0c8",
    ] {
        assert_eq!(uuid_parse(text), Some(ID), "{text}");
    }
    for text in [
        "",
        "67e5504410b1426f9247bb680e5fe0c",
        "67e5504410b1426f9247bb680e5fe0cg",
        "67e5504-410b1-426f-9247-bb680e5fe0c8",
        "{67e5504410b1426f9247bb680e5fe0c8}",
        "[67e55044-10b1-426f-9247-bb680e5fe0c8]",
        "urn:uid:67e55044-10b1-426f-9247-bb680e5fe0c88",
        "67e55044-10b1-426f-9247-bb680e5fe0\u{e9}",
    ] {
        assert_eq!(uuid_parse(text), None, "{text}");
    }
}
