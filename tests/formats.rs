use wrath::{
    split_shader_source, BufferElement, BufferLayout, IndexType, Indices, ShaderType, Vertices,
};

fn text(bytes: &[u8]) -> String {
    String::from_utf8(bytes.to_vec()).unwrap()
}

#[test]
fn splits_a_two_stage_file() {
    let source = b"#type vertex\nvoid main() {}\n#type fragment\nout vec4 c;\nvoid main() {}\n";
    let sources = split_shader_source(source).ok().unwrap();
    assert_eq!(text(&sources.vertex), "void main() {}\n");
    assert_eq!(text(&sources.fragment), "out vec4 c;\nvoid main() {}\n");
}

#[test]
fn lines_before_the_first_marker_are_dropped() {
    let source = b"// header\n#type fragment\nf\n#type vertex\nv";
    let sources = split_shader_source(source).ok().unwrap();
    assert_eq!(text(&sources.vertex), "v\n");
    assert_eq!(text(&sources.fragment), "f\n");
}

#[test]
fn crlf_line_endings_are_stripped() {
    let source = b"#type vertex\r\na\r\n#type fragment\r\nb\r\n";
    let sources = split_shader_source(source).ok().unwrap();
    assert_eq!(text(&sources.vertex), "a\n");
    assert_eq!(text(&sources.fragment), "b\n");
}

#[test]
fn a_stage_can_continue_after_another() {
    let source = b"#type vertex\na\n#type fragment\nb\n#type vertex\nc\n";
    let sources = split_shader_source(source).ok().unwrap();
    assert_eq!(text(&sources.vertex), "a\nc\n");
    assert_eq!(text(&sources.fragment), "b\n");
}

#[test]
fn unknown_stage_is_an_error() {
    let source = b"#type vertex\na\n#type geometry\nb\n";
    let err = split_shader_source(source).err().unwrap();
    assert_eq!(text(&err.name), " geometry");
}

#[test]
fn empty_source_gives_empty_stages() {
    let sources = split_shader_source(b"").ok().unwrap();
    assert!(sources.vertex.is_empty());
    assert!(sources.fragment.is_empty());
}

#[test]
fn layout_offsets_run_over_element_sizes() {
    let layout = BufferLayout::new(&[BufferElement::Vec3, BufferElement::Vec4, BufferElement::Vec3]);
    assert_eq!(layout.len, 3);
    assert_eq!(layout.counts, vec![3, 4, 3]);
    assert_eq!(layout.offsets, vec![0, 12, 28]);
    assert_eq!(layout.stride, 40);
    assert_eq!(layout.types, vec![BufferElement::Vec3, BufferElement::Vec4, BufferElement::Vec3]);
}

#[test]
fn empty_layout() {
    let layout = BufferLayout::new(&[]);
    assert_eq!(layout.len, 0);
    assert_eq!(layout.stride, 0);
    assert!(layout.offsets.is_empty());
}

#[test]
fn element_counts_and_sizes() {
    assert_eq!(BufferElement::Vec3.count(), 3);
    assert_eq!(BufferElement::Vec4.count(), 4);
    assert_eq!(BufferElement::Vec3.size(), 12);
    assert_eq!(BufferElement::Vec4.size(), 16);
}

#[test]
fn index_sizes() {
    let a = Indices::U8(vec![0, 1, 2]);
    let b = Indices::U16(vec![0, 1, 2, 3]);
    let c = Indices::U32(vec![0, 1]);
    assert_eq!((a.len(), a.size(), a.index_type()), (3, 3, IndexType::U8));
    assert_eq!((b.len(), b.size(), b.index_type()), (4, 8, IndexType::U16));
    assert_eq!((c.len(), c.size(), c.index_type()), (2, 8, IndexType::U32));
}

#[test]
fn vertices_size_in_bytes() {
    let v = Vertices::new(vec![0; 7]);
    assert_eq!(v.size(), 28);
}

#[test]
fn shader_type_names() {
    assert_eq!(ShaderType::Vertex.name(), "Vertex");
    assert_eq!(ShaderType::Fragment.name(), "Fragment");
}

#[test]
fn it_works() {
    assert_eq!(2 + 2, 4);
}
