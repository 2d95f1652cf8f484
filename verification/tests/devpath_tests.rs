use winchain::devpath::PathError;
use winchain::devpath::PathNode;
use winchain::devpath::synthesize_path;

fn node(node_type: u8, sub_type: u8, data: Vec<u8>) -> PathNode {
    PathNode { node_type, sub_type, data }
}

fn sample_source() -> Vec<PathNode> {
    vec![
        node(2, 1, vec![0x0a, 0x0b, 0x0c, 0x0d]),
        node(1, 4, vec![0x11]),
        node(4, 1, vec![0x22, 0x33]),
    ]
}

#[test]
fn synthesized_path_has_k_plus_two_nodes() {
    let source = sample_source();
    let file_path: Vec<u16> = vec![0x5c, 0x41];  // "\A"
    let path = synthesize_path(&source, &file_path, 128).unwrap();
    assert_eq!(path.nodes.len(), source.len() + 2);
    for (copied, original) in path.nodes.iter().zip(source.iter()) {
        assert_eq!(copied.node_type, original.node_type);
        assert_eq!(copied.sub_type, original.sub_type);
        assert_eq!(copied.data, original.data);
    }
    let file_node = &path.nodes[3];
    assert_eq!(file_node.node_type, 4);
    assert_eq!(file_node.sub_type, 4);
    assert_eq!(file_node.data, vec![0x5c, 0x00, 0x41, 0x00, 0x00, 0x00]);
    let end_node = &path.nodes[4];
    assert_eq!(end_node.node_type, 0x7f);
    assert_eq!(end_node.sub_type, 0xff);
    assert!(end_node.data.is_empty());
}

#[test]
fn capacity_exhaustion_fails_construction() {
    let source = sample_source();
    let file_path: Vec<u16> = vec![0x5c, 0x41];
    // Total size: (8 + 5 + 6) source + 10 file + 4 end = 33 bytes.
    assert!(synthesize_path(&source, &file_path, 33).is_ok());
    assert_eq!(
        synthesize_path(&source, &file_path, 32).err(),
        Some(PathError::CapacityExceeded)
    );
    // Capacity too small even for the source nodes alone.
    assert_eq!(
        synthesize_path(&source, &file_path, 10).err(),
        Some(PathError::CapacityExceeded)
    );
}

#[test]
fn wire_form_is_nodes_in_order() {
    let source = vec![node(1, 2, vec![0xaa])];
    let file_path: Vec<u16> = vec![0x41];
    let path = synthesize_path(&source, &file_path, 128).unwrap();
    let bytes = path.to_bytes();
    assert_eq!(
        bytes,
        vec![
            1, 2, 5, 0, 0xaa, // copied source node
            4, 4, 8, 0, 0x41, 0x00, 0x00, 0x00, // file node, "A" plus terminator
            0x7f, 0xff, 4, 0, // end-of-path node
        ]
    );
}

#[test]
fn empty_source_still_gets_file_and_end() {
    let source: Vec<PathNode> = vec![];
    let file_path: Vec<u16> = vec![0x42];
    let path = synthesize_path(&source, &file_path, 128).unwrap();
    assert_eq!(path.nodes.len(), 2);
    assert_eq!(path.nodes[0].node_type, 4);
    assert_eq!(path.nodes[1].node_type, 0x7f);
}
