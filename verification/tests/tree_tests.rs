use media_vault_core::tree::{decode_tree, encode_tree, plan_rename, TreeNode};

fn file(name: &str, content: &[u8]) -> TreeNode {
    TreeNode {
        physical_name: name.to_string(),
        is_directory: false,
        content: content.to_vec(),
        children: Vec::new(),
    }
}

fn dir(name: &str, children: Vec<TreeNode>) -> TreeNode {
    TreeNode {
        physical_name: name.to_string(),
        is_directory: true,
        content: Vec::new(),
        children,
    }
}

#[test]
fn test_tree_roundtrip_restores_names_and_content() {
    // Encoding a nested tree and then decoding it restores every
    // directory's display name and every file's byte content exactly.
    let original = dir(
        "my_folder",
        vec![
            file("file.txt", b"hello"),
            dir(
                "subdir",
                vec![file("nested.txt", b"deep bytes"), dir("empty", Vec::new())],
            ),
        ],
    );

    let encoded = encode_tree(&original);
    assert!(encoded.physical_name.starts_with(".dat_"));
    assert!(encoded.children[0].physical_name.starts_with(".dat_"));
    assert!(encoded.children[1].physical_name.starts_with(".dat_"));
    assert!(encoded.children[1].children[0].physical_name.starts_with(".dat_"));

    let restored = decode_tree(&encoded);
    assert_eq!(restored.physical_name, "my_folder");
    assert_eq!(restored.children[0].physical_name, "file.txt");
    assert_eq!(restored.children[0].content, b"hello".to_vec());
    assert_eq!(restored.children[1].physical_name, "subdir");
    assert_eq!(restored.children[1].children[0].physical_name, "nested.txt");
    assert_eq!(restored.children[1].children[0].content, b"deep bytes".to_vec());
    assert_eq!(restored.children[1].children[1].physical_name, "empty");
}

#[test]
fn test_encode_tree_leaves_encoded_nodes() {
    // A node already encoded is left untouched but still recursed into.
    let tree = dir(".dat_VGVzdA==", vec![file("plain.txt", b"x")]);
    let encoded = encode_tree(&tree);
    assert_eq!(encoded.physical_name, ".dat_VGVzdA==");
    assert!(encoded.children[0].physical_name.starts_with(".dat_"));
}

#[test]
fn test_decode_tree_leaves_plain_nodes() {
    let tree = dir("plain", vec![file(".dat_VGVzdA==", b"x")]);
    let decoded = decode_tree(&tree);
    assert_eq!(decoded.physical_name, "plain");
    assert_eq!(decoded.children[0].physical_name, "Test");
}

#[test]
fn test_plan_rename_encode() {
    assert_eq!(
        plan_rename("hello.txt", false),
        Some(".dat_aGVsbG8udHh0".to_string())
    );
    assert_eq!(plan_rename(".dat_VGVzdA==", false), None);
}

#[test]
fn test_plan_rename_revert() {
    assert_eq!(plan_rename(".dat_VGVzdA==", true), Some("Test".to_string()));
    assert_eq!(plan_rename("plain.txt", true), None);
}
