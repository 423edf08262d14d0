use rs2ts::ast::{
    Const, CoroutineKind, Extern, Fn, FnDecl, FnHeader, FnRetTy, FnSig, GenericArg, GenericArgs,
    GenericBound, GenericParam, GenericParamKind, Generics, Item, ItemKind, Param, Pat, Path,
    PathSegment, Safety, Ty, TyKind, WhereBoundPredicate, WhereClause, WherePredicate,
};

fn path(names: &[&str]) -> Path {
    Path {
        segments: names
            .iter()
            .map(|n| PathSegment { ident: String::from(*n), args: None })
            .collect(),
    }
}

fn ty(names: &[&str]) -> Ty {
    Ty { kind: TyKind::Path(path(names)) }
}

fn option_of(inner: &str) -> Ty {
    Ty {
        kind: TyKind::Path(Path {
            segments: vec![PathSegment {
                ident: String::from("Option"),
                args: Some(GenericArgs { args: vec![GenericArg::Type(ty(&[inner]))] }),
            }],
        }),
    }
}

#[test]
fn function_item_holds_its_parts() {
    let item = Item {
        is_pub: true,
        ident: String::from("test"),
        kind: ItemKind::Fn(Fn {
            generics: Generics {
                params: vec![GenericParam {
                    ident: String::from("H"),
                    bounds: vec![],
                    kind: GenericParamKind::Type,
                }],
                where_clause: WhereClause {
                    predicates: vec![WherePredicate::BoundPredicate(WhereBoundPredicate {
                        bound_generic_params: vec![],
                        bounded_ty: String::from("H"),
                        bounds: vec![GenericBound::Trait(path(&["ToBytes"]))],
                    })],
                },
            },
            sig: FnSig {
                header: FnHeader {
                    safety: Safety::Default,
                    coroutine_kind: Some(CoroutineKind::Async),
                    constness: Const::No,
                    ext: Extern::Absent,
                },
                decl: FnDecl {
                    inputs: vec![Param { ty: option_of("H"), pat: Pat {} }],
                    output: FnRetTy::Ty(ty(&["std", "string", "String"])),
                },
            },
        }),
    };
    assert!(item.is_pub);
    assert_eq!(item.ident, "test");
    match item.kind {
        ItemKind::Fn(f) => {
            assert_eq!(f.generics.params.len(), 1);
            assert_eq!(f.generics.where_clause.predicates.len(), 1);
            assert_eq!(f.sig.header.coroutine_kind, Some(CoroutineKind::Async));
            assert_eq!(f.sig.decl.inputs[0].ty, option_of("H"));
            assert_ne!(f.sig.decl.inputs[0].ty, option_of("K"));
            assert_ne!(f.sig.decl.output, FnRetTy::Default);
        }
        _ => panic!("a function was built"),
    }
}

#[test]
fn other_items_and_qualifiers() {
    let kinds = [
        ItemKind::Struct,
        ItemKind::Enum,
        ItemKind::Mod,
        ItemKind::Use,
        ItemKind::Trait,
        ItemKind::TyAlias,
    ];
    for (i, a) in kinds.iter().enumerate() {
        for (j, b) in kinds.iter().enumerate() {
            assert_eq!(a == b, i == j);
        }
    }
    assert_ne!(Extern::Implicit, Extern::Explicit(String::from("C")));
    assert_ne!(Safety::Safe, Safety::Unsafe);
    assert_ne!(Const::Yes, Const::No);
    assert_ne!(CoroutineKind::Gen, CoroutineKind::AsyncGen);
}
