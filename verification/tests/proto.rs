use xmtp_core::proto::composite::{Composite, Element, Part};
use xmtp_core::proto::content::{ContentTypeId, EncodedContent};

fn content(bytes: &[u8]) -> EncodedContent {
    EncodedContent {
        content_type: Some(ContentTypeId {
            authority_id: "xmtp.org".to_string(),
            type_id: "text".to_string(),
            version_major: 1,
            version_minor: 0,
        }),
        parameters: vec![("encoding".to_string(), "UTF-8".to_string())],
        fallback: None,
        compression: None,
        content: bytes.to_vec(),
    }
}

#[test]
fn new_part_holds_nothing() {
    let part = Part::new();
    assert!(!part.has_part());
    assert!(!part.has_composite());
    assert_eq!(part.part(), EncodedContent::new());
    assert_eq!(part.composite(), Composite::new());
    assert_eq!(Composite::new().parts.len(), 0);
}

#[test]
fn set_part_and_read_it_back() {
    let mut part = Part::new();
    part.set_part(content(b"hi"));
    assert!(part.has_part());
    assert!(!part.has_composite());
    assert_eq!(part.part(), content(b"hi"));
    assert_eq!(part.composite(), Composite::new());
    part.clear_part();
    assert!(!part.has_part());
}

#[test]
fn set_composite_replaces_the_part() {
    let mut part = Part::new();
    part.set_part(content(b"hi"));
    let mut inner = Part::new();
    inner.set_part(content(b"nested"));
    part.set_composite(Composite { parts: vec![inner] });
    assert!(part.has_composite());
    assert!(!part.has_part());
    assert_eq!(part.part(), EncodedContent::new());
    assert_eq!(part.composite().parts.len(), 1);
    assert_eq!(part.composite().parts[0].part(), content(b"nested"));
    part.clear_composite();
    assert!(!part.has_composite());
}

#[test]
fn take_part_leaves_the_part_empty() {
    let mut part = Part::new();
    part.set_part(content(b"hi"));
    assert_eq!(part.take_part(), content(b"hi"));
    assert_eq!(part.element, None);
    assert_eq!(part.take_part(), EncodedContent::new());
}

#[test]
fn take_part_of_a_composite_changes_nothing() {
    let mut part = Part::new();
    part.set_composite(Composite::new());
    assert_eq!(part.take_part(), EncodedContent::new());
    assert!(part.has_composite());
    assert_eq!(part.take_composite(), Composite::new());
    assert_eq!(part.element, None);
    assert_eq!(part.take_composite(), Composite::new());
}

#[test]
fn mut_part_makes_room_and_lets_change() {
    let mut part = Part::new();
    part.mut_part().content = vec![1, 2];
    assert!(part.has_part());
    assert_eq!(part.part().content, vec![1, 2]);
    part.mut_part().content.push(3);
    assert_eq!(part.part().content, vec![1, 2, 3]);
}

#[test]
fn mut_composite_makes_room_and_lets_change() {
    let mut part = Part::new();
    part.set_part(content(b"hi"));
    part.mut_composite().parts.push(Part::new());
    assert!(part.has_composite());
    assert_eq!(part.composite().parts.len(), 1);
    part.mut_composite().parts.push(Part::new());
    assert_eq!(part.composite().parts.len(), 2);
}

#[test]
fn deep_copy_copies_what_is_nested() {
    let mut leaf = Part::new();
    leaf.set_part(content(b"leaf"));
    let mut middle = Part::new();
    middle.set_composite(Composite { parts: vec![leaf, Part::new()] });
    let top = Composite { parts: vec![middle] };
    let copy = top.deep_copy();
    assert_eq!(copy, top);
    match &copy.parts[0].element {
        Some(Element::Composite(c)) => assert_eq!(c.parts[0].part(), content(b"leaf")),
        _ => panic!("expected a composite"),
    }
}

#[test]
fn encoded_content_has_the_wire_format() {
    let c = EncodedContent {
        content_type: Some(ContentTypeId {
            authority_id: "x".to_string(),
            type_id: "t".to_string(),
            version_major: 1,
            version_minor: 0,
        }),
        parameters: vec![("k".to_string(), "v".to_string())],
        fallback: Some("f".to_string()),
        compression: Some(1),
        content: vec![0xAA, 0xBB],
    };
    assert_eq!(
        c.encode(),
        vec![
            0x0A, 8, 0x0A, 1, b'x', 0x12, 1, b't', 0x18, 1, // the type
            0x12, 6, 0x0A, 1, b'k', 0x12, 1, b'v', // the parameter
            0x1A, 1, b'f', // the fallback
            0x22, 2, 0xAA, 0xBB, // the payload
            0x28, 1, // the compression
        ]
    );
    assert_eq!(c.compute_size(), 27);
    assert_eq!(EncodedContent::new().encode(), Vec::<u8>::new());
    assert_eq!(EncodedContent::new().compute_size(), 0);
}

#[test]
fn negative_compression_is_widened_with_its_sign() {
    let mut c = EncodedContent::new();
    c.compression = Some(-1);
    assert_eq!(
        c.encode(),
        vec![0x28, 0xFF, 0xFF, 0xFF, 0xFF, 0xFF, 0xFF, 0xFF, 0xFF, 0xFF, 0x01]
    );
    c.compression = Some(0);
    assert_eq!(c.encode(), vec![0x28, 0]);
}

#[test]
fn composite_has_the_wire_format() {
    let mut leaf = Part::new();
    leaf.set_part(EncodedContent {
        content_type: None,
        parameters: vec![],
        fallback: None,
        compression: None,
        content: vec![7],
    });
    let mut nested = Part::new();
    nested.set_composite(Composite { parts: vec![Part::new()] });
    let top = Composite { parts: vec![leaf, nested] };
    let bytes = top.write_to_bytes();
    assert_eq!(
        bytes,
        vec![
            0x0A, 5, 0x0A, 3, 0x22, 1, 7, // a part that holds a content
            0x0A, 4, 0x12, 2, 0x0A, 0, // a part that holds a composite of one empty part
        ]
    );
    assert_eq!(top.compute_size(), bytes.len() as u64);
    assert_eq!(top.parts[0].compute_size(), 5);
    assert_eq!(Part::new().compute_size(), 0);
    assert_eq!(Composite::new().compute_size(), 0);
    assert_eq!(Composite::new().write_to_bytes(), Vec::<u8>::new());
}

#[test]
fn size_of_a_long_part_counts_the_longer_length() {
    let mut part = Part::new();
    part.set_part(EncodedContent {
        content_type: None,
        parameters: vec![],
        fallback: None,
        compression: None,
        content: vec![0; 200],
    });
    // the payload field: 1 + 2 + 200; the part field around it: 1 + 2 + 203
    assert_eq!(part.compute_size(), 206);
    let composite = Composite { parts: vec![part] };
    assert_eq!(composite.compute_size(), 209);
    assert_eq!(composite.write_to_bytes().len(), 209);
}
