use sig::ast::{
    Annotated, Attribute, Block, Expr, Field, GenericArgs, Item, ItemKind, Member, MemberKind,
    Param, Pat, PathSegment, Signature, Span, Stmt, StructBody, Ty, TyKind,
};
use sig::diag::{Diagnostic, ErrorKind};
use sig::walk::sig;

fn sp(lo: u32) -> Span {
    Span { lo, hi: lo + 1 }
}

fn seg(name: &str) -> PathSegment {
    PathSegment { name: name.to_string(), args: GenericArgs::Bare }
}

fn named_ty(name: &str, at: u32) -> Ty {
    Ty { kind: TyKind::Path(vec![seg(name)]), span: sp(at) }
}

fn self_ref_ty() -> Ty {
    Ty { kind: TyKind::Ref(false, Box::new(Ty { kind: TyKind::ImplicitSelf, span: sp(1) })), span: sp(1) }
}

fn marker(at: u32) -> Attribute {
    Attribute { path: vec![seg("sig")], span: sp(at) }
}

fn other_attr(at: u32) -> Attribute {
    Attribute { path: vec![seg("inline")], span: sp(at) }
}

fn receiver() -> Param {
    Param { pat: Pat::Ident("self".to_string()), ty: self_ref_ty(), span: sp(2) }
}

fn param(name: &str, ty: &str, at: u32) -> Param {
    Param { pat: Pat::Ident(name.to_string()), ty: named_ty(ty, at), span: sp(at) }
}

fn body(texts: &[&str]) -> Block {
    Block { stmts: texts.iter().map(|t| Stmt::Other(t.to_string())).collect(), span: sp(50) }
}

fn method(name: &str, attrs: Vec<Attribute>, params: Vec<Param>, ret: Option<Ty>, stmts: &[&str]) -> Member {
    Member {
        name: name.to_string(),
        attrs,
        kind: MemberKind::Method(Signature { params, ret }, body(stmts)),
        span: sp(40),
    }
}

fn signal(name: &str, params: Vec<Param>) -> Member {
    let mut all = vec![receiver()];
    all.extend(params);
    method(name, vec![marker(30)], all, None, &["println!(\"emit\")"])
}

fn named_struct(name: &str, fields: Vec<Field>) -> Item {
    Item { name: name.to_string(), attrs: vec![], kind: ItemKind::Struct(StructBody::Named(fields)), span: sp(10) }
}

fn plain_field(name: &str) -> Field {
    Field { name: Some(name.to_string()), public: false, ty: named_ty("u32", 11), attrs: vec![], span: sp(11) }
}

fn impl_block(ty: Ty, members: Vec<Member>) -> Item {
    Item { name: String::new(), attrs: vec![], kind: ItemKind::Impl(ty, members), span: sp(20) }
}

fn module(name: &str, items: Vec<Item>) -> Item {
    Item { name: name.to_string(), attrs: vec![], kind: ItemKind::Mod(items), span: sp(0) }
}

fn run(item: Item) -> (Item, Vec<Diagnostic>) {
    let mut diags = Vec::new();
    match sig(Annotated::Item(item), &mut diags) {
        Annotated::Item(it) => (it, diags),
        other => panic!("expected an item back, got {:?}", other),
    }
}

fn items_of(item: &Item) -> &Vec<Item> {
    match &item.kind {
        ItemKind::Mod(items) => items,
        other => panic!("expected a module, got {:?}", other),
    }
}

fn fields_of(item: &Item) -> &Vec<Field> {
    match &item.kind {
        ItemKind::Struct(StructBody::Named(f)) | ItemKind::Struct(StructBody::Tuple(f)) => f,
        other => panic!("expected a structure with fields, got {:?}", other),
    }
}

fn members_of(item: &Item) -> &Vec<Member> {
    match &item.kind {
        ItemKind::Impl(_, ms) => ms,
        other => panic!("expected an impl block, got {:?}", other),
    }
}

fn stmts_of(m: &Member) -> &Vec<Stmt> {
    match &m.kind {
        MemberKind::Method(_, b) => &b.stmts,
        other => panic!("expected a method, got {:?}", other),
    }
}

/// The one generic argument of the one-segment path `name<T>`.
fn only_arg<'a>(ty: &'a Ty, name: &str) -> &'a Ty {
    match &ty.kind {
        TyKind::Path(segs) => {
            assert_eq!(segs.len(), 1);
            assert_eq!(segs[0].name, name);
            match &segs[0].args {
                GenericArgs::Angle(a) => {
                    assert_eq!(a.len(), 1);
                    &a[0]
                },
                other => panic!("expected one angle argument, got {:?}", other),
            }
        },
        other => panic!("expected a path, got {:?}", other),
    }
}

/// The argument types of `Vec<Rc<Fn(..)>>`.
fn slot_arg_tys(ty: &Ty) -> &Vec<Ty> {
    let callable = only_arg(only_arg(ty, "Vec"), "Rc");
    match &callable.kind {
        TyKind::Path(segs) => {
            assert_eq!(segs.len(), 1);
            assert_eq!(segs[0].name, "Fn");
            match &segs[0].args {
                GenericArgs::Paren(args) => args,
                other => panic!("expected Fn arguments, got {:?}", other),
            }
        },
        other => panic!("expected Fn, got {:?}", other),
    }
}

/// Checks that `s` is `for slot in self.<field>.iter() { slot(<args>) }`.
fn assert_emission(s: &Stmt, field: &str, args: &[&str]) {
    match s {
        Stmt::Expr(Expr::ForLoop(Pat::Ident(b), iter, blk)) => {
            assert_eq!(b, "slot");
            match &**iter {
                Expr::MethodCall(recv, m, margs) => {
                    assert_eq!(m, "iter");
                    assert!(margs.is_empty());
                    match &**recv {
                        Expr::Field(base, f) => {
                            assert_eq!(**base, Expr::SelfValue);
                            assert_eq!(f, field);
                        },
                        other => panic!("expected a field access, got {:?}", other),
                    }
                },
                other => panic!("expected a method call, got {:?}", other),
            }
            assert_eq!(blk.stmts.len(), 1);
            match &blk.stmts[0] {
                Stmt::Expr(Expr::Call(callee, call_args)) => {
                    assert_eq!(**callee, Expr::Ident("slot".to_string()));
                    let names: Vec<Expr> = args.iter().map(|a| Expr::Ident(a.to_string())).collect();
                    assert_eq!(*call_args, names);
                },
                other => panic!("expected a call, got {:?}", other),
            }
        },
        other => panic!("expected the emission loop, got {:?}", other),
    }
}

fn counter_module() -> Item {
    module("app", vec![named_struct("Counter", vec![]), impl_block(named_ty("Counter", 21), vec![signal("tick", vec![])])])
}

#[test]
fn counter_tick_gains_field_and_loop() {
    let (out, diags) = run(counter_module());
    assert!(diags.is_empty());
    let items = items_of(&out);
    assert_eq!(items.len(), 2);
    let fields = fields_of(&items[0]);
    assert_eq!(fields.len(), 1);
    assert_eq!(fields[0].name.as_deref(), Some("tick"));
    assert!(fields[0].public);
    assert!(fields[0].attrs.is_empty());
    assert!(slot_arg_tys(&fields[0].ty).is_empty());
    let ms = members_of(&items[1]);
    let stmts = stmts_of(&ms[0]);
    assert_eq!(stmts.len(), 2);
    assert_eq!(stmts[0], Stmt::Other("println!(\"emit\")".to_string()));
    assert_emission(&stmts[1], "tick", &[]);
}

#[test]
fn emitter_fields_follow_signal_order() {
    let m = module(
        "app",
        vec![
            named_struct("Emitter", vec![plain_field("value")]),
            impl_block(named_ty("Emitter", 21), vec![signal("a", vec![]), signal("b", vec![param("x", "i32", 5)])]),
        ],
    );
    let (out, diags) = run(m);
    assert!(diags.is_empty());
    let fields = fields_of(&items_of(&out)[0]);
    let names: Vec<Option<String>> = fields.iter().map(|f| f.name.clone()).collect();
    assert_eq!(names, vec![Some("value".to_string()), Some("a".to_string()), Some("b".to_string())]);
    assert_eq!(*slot_arg_tys(&fields[2].ty), vec![named_ty("i32", 5)]);
    let ms = members_of(&items_of(&out)[1]);
    assert_emission(stmts_of(&ms[1]).last().unwrap(), "b", &["x"]);
}

fn free_fn() -> Item {
    Item {
        name: "world".to_string(),
        attrs: vec![],
        kind: ItemKind::Fn(Signature { params: vec![], ret: None }, body(&["println!(\"World!\")"])),
        span: sp(7),
    }
}

#[test]
fn free_function_is_misplaced_and_kept() {
    let (out, diags) = run(free_fn());
    assert_eq!(out, free_fn());
    assert_eq!(diags, vec![Diagnostic { span: sp(7), kind: ErrorKind::MisplacedMarker }]);
}

#[test]
fn impl_without_struct_reports_target_not_found() {
    let m = module(
        "app",
        vec![named_struct("Bar", vec![plain_field("v")]), impl_block(named_ty("Foo", 21), vec![signal("go", vec![])])],
    );
    let (out, diags) = run(m);
    assert_eq!(diags, vec![Diagnostic { span: sp(21), kind: ErrorKind::TargetNotFound }]);
    assert_eq!(items_of(&out)[0], named_struct("Bar", vec![plain_field("v")]));
}

#[test]
fn target_in_enclosing_module_is_not_found() {
    let inner = module("inner", vec![impl_block(named_ty("Foo", 21), vec![signal("go", vec![])])]);
    let m = module("app", vec![named_struct("Foo", vec![]), inner]);
    let (out, diags) = run(m);
    assert_eq!(diags, vec![Diagnostic { span: sp(21), kind: ErrorKind::TargetNotFound }]);
    assert_eq!(items_of(&out)[0], named_struct("Foo", vec![]));
}

#[test]
fn target_in_sibling_module_is_not_found() {
    let a = module("a", vec![named_struct("Foo", vec![])]);
    let b = module("b", vec![impl_block(named_ty("Foo", 21), vec![signal("go", vec![])])]);
    let (out, diags) = run(module("app", vec![a, b]));
    assert_eq!(diags, vec![Diagnostic { span: sp(21), kind: ErrorKind::TargetNotFound }]);
    assert_eq!(items_of(&items_of(&out)[0])[0], named_struct("Foo", vec![]));
}

#[test]
fn nested_module_resolves_its_own_structs() {
    let inner = module("inner", vec![named_struct("Foo", vec![]), impl_block(named_ty("Foo", 21), vec![signal("go", vec![])])]);
    let (out, diags) = run(module("app", vec![inner]));
    assert!(diags.is_empty());
    let fields = fields_of(&items_of(&items_of(&out)[0])[0]);
    assert_eq!(fields.len(), 1);
    assert_eq!(fields[0].name.as_deref(), Some("go"));
}

#[test]
fn struct_after_impl_still_receives_fields() {
    let m = module("app", vec![impl_block(named_ty("Late", 21), vec![signal("go", vec![])]), named_struct("Late", vec![])]);
    let (out, diags) = run(m);
    assert!(diags.is_empty());
    assert_eq!(fields_of(&items_of(&out)[1]).len(), 1);
}

#[test]
fn two_impl_blocks_compose_in_discovery_order() {
    let m = module(
        "app",
        vec![
            named_struct("S", vec![]),
            impl_block(named_ty("S", 21), vec![signal("first", vec![])]),
            impl_block(named_ty("S", 22), vec![signal("second", vec![])]),
        ],
    );
    let (out, diags) = run(m);
    assert!(diags.is_empty());
    let names: Vec<Option<String>> = fields_of(&items_of(&out)[0]).iter().map(|f| f.name.clone()).collect();
    assert_eq!(names, vec![Some("first".to_string()), Some("second".to_string())]);
}

#[test]
fn tuple_struct_gains_positional_slot() {
    let tuple = Item {
        name: "T".to_string(),
        attrs: vec![],
        kind: ItemKind::Struct(StructBody::Tuple(vec![Field { name: None, public: false, ty: named_ty("u8", 3), attrs: vec![], span: sp(3) }])),
        span: sp(10),
    };
    let (out, diags) = run(module("app", vec![tuple, impl_block(named_ty("T", 21), vec![signal("go", vec![])])]));
    assert!(diags.is_empty());
    match &items_of(&out)[0].kind {
        ItemKind::Struct(StructBody::Tuple(f)) => {
            assert_eq!(f.len(), 2);
            assert_eq!(f[1].name.as_deref(), Some("go"));
        },
        other => panic!("expected a tuple structure, got {:?}", other),
    }
}

#[test]
fn non_struct_target_is_unsupported() {
    let unit = Item { name: "U".to_string(), attrs: vec![], kind: ItemKind::Struct(StructBody::Unit), span: sp(12) };
    let (out, diags) = run(module("app", vec![unit, impl_block(named_ty("U", 21), vec![signal("go", vec![])])]));
    assert_eq!(diags, vec![Diagnostic { span: sp(12), kind: ErrorKind::UnsupportedTarget }]);
    assert_eq!(items_of(&out)[0].kind, ItemKind::Struct(StructBody::Unit));
}

#[test]
fn first_item_of_the_name_is_the_target() {
    let e = Item { name: "E".to_string(), attrs: vec![], kind: ItemKind::Other("enum E {}".to_string()), span: sp(13) };
    let (_, diags) = run(module("app", vec![e, named_struct("E", vec![]), impl_block(named_ty("E", 21), vec![signal("go", vec![])])]));
    assert_eq!(diags, vec![Diagnostic { span: sp(13), kind: ErrorKind::UnsupportedTarget }]);
}

#[test]
fn generic_target_is_unresolvable() {
    let ty = Ty {
        kind: TyKind::Path(vec![PathSegment { name: "G".to_string(), args: GenericArgs::Angle(vec![named_ty("T", 24)]) }]),
        span: sp(23),
    };
    let (out, diags) = run(module("app", vec![named_struct("G", vec![]), impl_block(ty, vec![signal("go", vec![])])]));
    assert_eq!(diags, vec![Diagnostic { span: sp(23), kind: ErrorKind::UnresolvableTarget }]);
    assert!(fields_of(&items_of(&out)[0]).is_empty());
}

#[test]
fn one_failed_injection_leaves_the_others() {
    let m = module(
        "app",
        vec![
            named_struct("S", vec![]),
            impl_block(named_ty("Missing", 21), vec![signal("lost", vec![])]),
            impl_block(named_ty("S", 22), vec![signal("kept", vec![])]),
        ],
    );
    let (out, diags) = run(m);
    assert_eq!(diags, vec![Diagnostic { span: sp(21), kind: ErrorKind::TargetNotFound }]);
    assert_eq!(fields_of(&items_of(&out)[0]).len(), 1);
}

/// Walks a module holding `struct S {}` and `impl S { m }`; gives back the
/// walked module, what was reported, and how many fields `S` has after.
fn run_one_method(m: Member) -> (Item, Vec<Diagnostic>, usize) {
    let (out, diags) = run(module("app", vec![named_struct("S", vec![]), impl_block(named_ty("S", 21), vec![m])]));
    let n = fields_of(&items_of(&out)[0]).len();
    (out, diags, n)
}

fn only_member(out: &Item) -> &Member {
    &members_of(&items_of(out)[1])[0]
}

#[test]
fn unit_return_written_out_qualifies() {
    let unit = Ty { kind: TyKind::Tuple(vec![]), span: sp(9) };
    let (out, diags, n) = run_one_method(method("go", vec![marker(30)], vec![receiver()], Some(unit), &["a", "b"]));
    assert!(diags.is_empty());
    assert_eq!(n, 1);
    assert_eq!(stmts_of(only_member(&out)).len(), 3);
}

#[test]
fn returning_a_value_is_rejected() {
    let orig = || method("go", vec![marker(30)], vec![receiver()], Some(named_ty("u32", 9)), &["a"]);
    let (out, diags, n) = run_one_method(orig());
    assert_eq!(diags, vec![Diagnostic { span: sp(9), kind: ErrorKind::ReturnsValue }]);
    assert_eq!(n, 0);
    assert_eq!(*only_member(&out), orig());
}

#[test]
fn static_method_is_rejected() {
    let orig = || method("go", vec![marker(30)], vec![param("x", "i32", 6)], None, &["a"]);
    let (out, diags, n) = run_one_method(orig());
    assert_eq!(diags, vec![Diagnostic { span: sp(6), kind: ErrorKind::StaticMethod }]);
    assert_eq!(n, 0);
    assert_eq!(*only_member(&out), orig());
}

#[test]
fn method_without_parameters_is_rejected() {
    let orig = || method("go", vec![marker(30)], vec![], None, &["a"]);
    let (out, diags, n) = run_one_method(orig());
    assert_eq!(diags, vec![Diagnostic { span: sp(40), kind: ErrorKind::MissingReceiver }]);
    assert_eq!(n, 0);
    assert_eq!(*only_member(&out), orig());
}

#[test]
fn pattern_as_first_parameter_is_rejected() {
    let first = Param { pat: Pat::Other("(a, b)".to_string()), ty: named_ty("P", 8), span: sp(8) };
    let (_, diags, n) = run_one_method(method("go", vec![marker(30)], vec![first], None, &[]));
    assert_eq!(diags, vec![Diagnostic { span: sp(8), kind: ErrorKind::UnexpectedPattern }]);
    assert_eq!(n, 0);
}

#[test]
fn repeated_marker_is_rejected() {
    let (_, diags, n) = run_one_method(method("go", vec![marker(30), marker(31)], vec![receiver()], None, &[]));
    assert_eq!(diags, vec![Diagnostic { span: sp(40), kind: ErrorKind::RepeatedMarker }]);
    assert_eq!(n, 0);
}

#[test]
fn unmarked_method_is_left_alone() {
    let orig = || method("go", vec![other_attr(30)], vec![receiver()], None, &["a"]);
    let (out, diags, n) = run_one_method(orig());
    assert!(diags.is_empty());
    assert_eq!(n, 0);
    assert_eq!(*only_member(&out), orig());
}

#[test]
fn body_keeps_its_statements_then_one_loop() {
    let mut params = vec![receiver(), param("a", "u8", 3), param("b", "u16", 4)];
    let m = method("go", vec![other_attr(29), marker(30)], std::mem::take(&mut params), None, &["one", "two", "three"]);
    let (out, diags, _) = run_one_method(m);
    assert!(diags.is_empty());
    let stmts = stmts_of(only_member(&out));
    assert_eq!(stmts.len(), 4);
    assert_eq!(stmts[..3], [Stmt::Other("one".into()), Stmt::Other("two".into()), Stmt::Other("three".into())]);
    assert_emission(&stmts[3], "go", &["a", "b"]);
}

#[test]
fn pattern_parameter_gets_placeholder_and_report() {
    let wild = Param { pat: Pat::Wild, ty: named_ty("u8", 14), span: sp(14) };
    let m = module(
        "app",
        vec![named_struct("S", vec![]), impl_block(named_ty("S", 21), vec![signal("go", vec![param("a", "i8", 3), wild])])],
    );
    let (out, diags) = run(m);
    assert_eq!(diags, vec![Diagnostic { span: sp(14), kind: ErrorKind::UnexpectedPattern }]);
    let fields = fields_of(&items_of(&out)[0]);
    assert_eq!(*slot_arg_tys(&fields[0].ty), vec![named_ty("i8", 3), named_ty("u8", 14)]);
    assert_emission(stmts_of(&members_of(&items_of(&out)[1])[0]).last().unwrap(), "go", &["a", ""]);
}

#[test]
fn marker_on_nested_item_is_misplaced() {
    let mut s = named_struct("S", vec![]);
    s.attrs.push(marker(30));
    let (out, diags) = run(module("app", vec![s]));
    assert_eq!(diags, vec![Diagnostic { span: sp(10), kind: ErrorKind::MisplacedMarker }]);
    let mut expected = named_struct("S", vec![]);
    expected.attrs.push(marker(30));
    assert_eq!(items_of(&out)[0], expected);
}

#[test]
fn marker_on_impl_block_inside_module_skips_it() {
    let mut i = impl_block(named_ty("S", 21), vec![signal("go", vec![])]);
    i.attrs.push(marker(30));
    let (out, diags) = run(module("app", vec![named_struct("S", vec![]), i]));
    assert_eq!(diags, vec![Diagnostic { span: sp(20), kind: ErrorKind::MisplacedMarker }]);
    assert!(fields_of(&items_of(&out)[0]).is_empty());
}

#[test]
fn top_level_impl_block_is_misplaced() {
    let (out, diags) = run(impl_block(named_ty("S", 21), vec![signal("go", vec![])]));
    assert_eq!(diags, vec![Diagnostic { span: sp(20), kind: ErrorKind::MisplacedMarker }]);
    assert_eq!(out, impl_block(named_ty("S", 21), vec![signal("go", vec![])]));
}

#[test]
fn second_marker_on_top_module_is_misplaced() {
    let mut m = counter_module();
    m.attrs.push(marker(30));
    let (out, diags) = run(m);
    assert_eq!(diags, vec![Diagnostic { span: sp(0), kind: ErrorKind::MisplacedMarker }]);
    let mut expected = counter_module();
    expected.attrs.push(marker(30));
    assert_eq!(out, expected);
}

#[test]
fn marked_associated_item_is_misplaced() {
    let assoc = Member { name: "N".to_string(), attrs: vec![marker(30)], kind: MemberKind::Other("const N: u8 = 1;".to_string()), span: sp(33) };
    let (_, diags) = run(module("app", vec![named_struct("S", vec![]), impl_block(named_ty("S", 21), vec![assoc])]));
    assert_eq!(diags, vec![Diagnostic { span: sp(33), kind: ErrorKind::MisplacedMarker }]);
}

#[test]
fn trait_member_is_misplaced() {
    let mut diags = Vec::new();
    let out = sig(Annotated::TraitMember(signal("go", vec![])), &mut diags);
    assert_eq!(out, Annotated::TraitMember(signal("go", vec![])));
    assert_eq!(diags, vec![Diagnostic { span: sp(40), kind: ErrorKind::MisplacedMarker }]);
}

#[test]
fn impl_member_passes_through() {
    let mut diags = Vec::new();
    let out = sig(Annotated::ImplMember(signal("go", vec![])), &mut diags);
    assert_eq!(out, Annotated::ImplMember(signal("go", vec![])));
    assert!(diags.is_empty());
}

#[test]
fn duplicate_copies_a_nested_type() {
    let t = Ty {
        kind: TyKind::Ref(true, Box::new(Ty {
            kind: TyKind::Path(vec![seg("std"), PathSegment { name: "Vec".to_string(), args: GenericArgs::Angle(vec![named_ty("u8", 2)]) }]),
            span: sp(1),
        })),
        span: sp(0),
    };
    assert_eq!(t.duplicate(), t);
}
