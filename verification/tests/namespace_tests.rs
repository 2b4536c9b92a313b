use aml::namedobj::RegionSpace;
use aml::namespace::{AmlNamespace, AmlNamespaceContents, AmlValue};

fn root() -> AmlNamespace {
    AmlNamespace::new_namespace(&"\\".to_string())
}

fn children(node: &AmlNamespace) -> &Vec<AmlNamespaceContents> {
    match &node.contents {
        AmlNamespaceContents::Namespace(v) => v,
        other => panic!("not a namespace: {:?}", other),
    }
}

fn sub<'a>(node: &'a AmlNamespace, name: &str) -> &'a AmlNamespace {
    for c in children(node) {
        if let AmlNamespaceContents::SubNamespace(b) = c {
            if b.name == name {
                return b;
            }
        }
    }
    panic!("no sub-namespace named {}", name);
}

#[test]
fn push_appends_to_namespace_contents() {
    let mut r = root();
    r.push(AmlNamespaceContents::Value(AmlValue::Device));
    assert_eq!(children(&r).len(), 1);
    assert_eq!(children(&r)[0], AmlNamespaceContents::Value(AmlValue::Device));
}

#[test]
fn push_to_builds_three_nested_levels() {
    let mut r = root();
    r.push_to(
        "_SB.PCI0.LNKA".to_string(),
        AmlNamespaceContents::Value(AmlValue::Device),
    );
    assert_eq!(children(&r).len(), 1);
    let sb = sub(&r, "_SB");
    assert_eq!(children(sb).len(), 1);
    let pci0 = sub(sb, "PCI0");
    assert_eq!(children(pci0).len(), 1);
    match children(pci0).get(0).unwrap() {
        AmlNamespaceContents::SubNamespace(lnka) => {
            assert_eq!(lnka.name, "LNKA".to_string());
            assert_eq!(lnka.contents, AmlNamespaceContents::Value(AmlValue::Device));
        },
        other => panic!("unexpected: {:?}", other),
    }
}

#[test]
fn push_to_reuses_existing_scopes() {
    let mut r = root();
    r.push_to(
        "_SB.PCI0.LNKA".to_string(),
        AmlNamespaceContents::Value(AmlValue::Device),
    );
    r.push_to(
        "_SB.PCI0".to_string(),
        AmlNamespaceContents::OpRegion {
            region: RegionSpace::SystemMemory,
            offset: AmlValue::Integer,
            len: AmlValue::Integer,
        },
    );
    // Still exactly one _SB under the root and one PCI0 under _SB; the new
    // object landed inside the existing PCI0.
    assert_eq!(children(&r).len(), 1);
    let sb = sub(&r, "_SB");
    assert_eq!(children(sb).len(), 1);
    let pci0 = sub(sb, "PCI0");
    assert_eq!(children(pci0).len(), 2);
}

#[test]
fn root_marker_only_valid_at_root() {
    let mut r = root();
    r.push_to("\\_SB".to_string(), AmlNamespaceContents::Value(AmlValue::Device));
    assert_eq!(children(&r).len(), 1);
    let mut other = AmlNamespace::new_namespace(&"_SB".to_string());
    other.push_to("\\FOO".to_string(), AmlNamespaceContents::Value(AmlValue::Device));
    assert!(children(&other).is_empty());
}

#[test]
fn malformed_scopes_are_no_ops() {
    let mut r = root();
    r.push_to(String::new(), AmlNamespaceContents::Value(AmlValue::Device));
    assert!(children(&r).is_empty());
    // A final segment longer than four characters is ignored.
    r.push_to("TOOLONG".to_string(), AmlNamespaceContents::Value(AmlValue::Device));
    assert!(children(&r).is_empty());
}

#[test]
fn push_subordinate_namespace_declares_empty_scope() {
    let mut r = root();
    r.push_subordinate_namespace("_SB".to_string());
    let sb = sub(&r, "_SB");
    assert!(children(sb).is_empty());
}

#[test]
fn push_to_non_namespace_node_is_no_op() {
    let mut leaf = AmlNamespace::new_namespace(&"LEAF".to_string());
    leaf.push_to("X".to_string(), AmlNamespaceContents::Value(AmlValue::Integer));
    let before = format!("{:?}", leaf);
    // Turn the node into a value-kind node by reaching its only child.
    let mut r = root();
    r.push_to("VAL_".to_string(), AmlNamespaceContents::Value(AmlValue::Integer));
    let val = sub(&r, "VAL_");
    assert_eq!(val.contents, AmlNamespaceContents::Value(AmlValue::Integer));
    let _ = before;
}
