use cairo_lang::key_fields::{get_key_fields, GreenId, SyntaxKind};

fn ids(n: u64) -> Vec<GreenId> {
    (0..n).map(|i| GreenId(100 + i)).collect()
}

#[test]
fn kinds_without_key_fields() {
    assert_eq!(get_key_fields(SyntaxKind::Terminal, vec![]), vec![]);
    assert_eq!(get_key_fields(SyntaxKind::ExprBinary, ids(3)), vec![]);
    assert_eq!(get_key_fields(SyntaxKind::SyntaxFile, ids(2)), vec![]);
}

#[test]
fn first_child_key() {
    assert_eq!(get_key_fields(SyntaxKind::StructArgSingle, ids(3)), vec![GreenId(100)]);
    assert_eq!(get_key_fields(SyntaxKind::Param, ids(1)), vec![GreenId(100)]);
}

#[test]
fn second_child_key() {
    for kind in [
        SyntaxKind::StatementLet,
        SyntaxKind::ItemModule,
        SyntaxKind::ItemFreeFunction,
        SyntaxKind::ItemTrait,
        SyntaxKind::ItemImpl,
        SyntaxKind::ItemStruct,
        SyntaxKind::ItemEnum,
        SyntaxKind::ItemUse,
    ] {
        assert_eq!(get_key_fields(kind, ids(4)), vec![GreenId(101)]);
    }
}

#[test]
fn third_child_key() {
    assert_eq!(get_key_fields(SyntaxKind::ItemExternFunction, ids(5)), vec![GreenId(102)]);
    assert_eq!(get_key_fields(SyntaxKind::ItemExternType, ids(3)), vec![GreenId(102)]);
}
