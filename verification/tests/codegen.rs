//! Scenes in, tokens out.
use bevy_malek_async::bsn::closure::{
    rewrite_async_closure, rewrite_async_closure_body_stream, rewrite_async_closure_tokens,
};
use bevy_malek_async::bsn::codegen::BsnTokenStream;
use bevy_malek_async::bsn::context::{BsnCodegenCtx, EntityRefs, Error};
use bevy_malek_async::bsn::patch::PatchTarget;
use bevy_malek_async::bsn::types::{
    Bsn, BsnAsyncClosure, BsnConstructor, BsnEntry, BsnFields, BsnInheritedScene, BsnListRoot,
    BsnNamedField, BsnRelatedSceneList, BsnRoot, BsnSceneList, BsnSceneListItem,
    BsnSceneListItems, BsnTuple, BsnType, BsnUnnamedField, BsnValue, Lit, Member,
};
use bevy_malek_async::literals::{decimal_text, usize_text};
use bevy_malek_async::tokens::{Delimiter, Ident, Literal, TokenTree, Tokens};
use proc_macro2::{Span, TokenStream};
use std::str::FromStr;

/// Hands tokens back to the token crate.
fn to_stream(tokens: &Tokens) -> TokenStream {
    tokens
        .trees
        .iter()
        .map(|tree| match tree {
            TokenTree::Group(g) => {
                let delimiter = match g.delimiter {
                    Delimiter::Parenthesis => proc_macro2::Delimiter::Parenthesis,
                    Delimiter::Brace => proc_macro2::Delimiter::Brace,
                    Delimiter::Bracket => proc_macro2::Delimiter::Bracket,
                    Delimiter::Invisible => proc_macro2::Delimiter::None,
                };
                proc_macro2::TokenTree::from(proc_macro2::Group::new(delimiter, to_stream(&g.stream)))
            }
            TokenTree::Ident(i) => match i.text.strip_prefix("r#") {
                Some(raw) => proc_macro2::Ident::new_raw(raw, i.span).into(),
                None => proc_macro2::Ident::new(&i.text, i.span).into(),
            },
            TokenTree::Punct(p) => {
                let spacing = if p.joint {
                    proc_macro2::Spacing::Joint
                } else {
                    proc_macro2::Spacing::Alone
                };
                proc_macro2::Punct::new(p.ch, spacing).into()
            }
            TokenTree::Literal(l) => proc_macro2::Literal::from_str(&l.text).unwrap().into(),
        })
        .collect()
}

fn render(tokens: &Tokens) -> String {
    to_stream(tokens).to_string()
}

/// The tokens of a text.
fn words(text: &str) -> Tokens {
    Tokens::read(TokenStream::from_str(text).unwrap())
}

fn ident(text: &str) -> Ident {
    Ident::new(text, Span::call_site())
}

struct TestPaths {
    bevy_scene: Tokens,
    bevy_ecs: Tokens,
}

impl TestPaths {
    fn new() -> Self {
        Self {
            bevy_scene: words("bevy_scene"),
            bevy_ecs: words("bevy_ecs"),
        }
    }

    fn ctx<'a>(&'a self, refs: &'a mut EntityRefs) -> BsnCodegenCtx<'a> {
        BsnCodegenCtx {
            bevy_scene: &self.bevy_scene,
            bevy_ecs: &self.bevy_ecs,
            entity_refs: refs,
            errors: Vec::new(),
            call_site: Span::call_site(),
        }
    }
}

fn named(name: &str, value: Option<BsnValue>) -> BsnNamedField {
    BsnNamedField {
        name: ident(name),
        value,
    }
}

fn expr(text: &str) -> Option<BsnValue> {
    Some(BsnValue::Expr(words(text)))
}

fn struct_type(path: &str, fields: Vec<BsnNamedField>) -> BsnType {
    BsnType {
        path: words(path),
        enum_variant: None,
        fields: BsnFields::Named(fields),
    }
}

fn scene(entries: Vec<BsnEntry>) -> Bsn<true> {
    Bsn { entries }
}

#[test]
fn duplicate_field() {
    let mut refs = EntityRefs::default();
    let paths = TestPaths::new();
    let mut ctx = paths.ctx(&mut refs);
    let mut assignments = vec![];
    let duplicate = struct_type("Transform", vec![named("x", expr("{}")), named("x", expr("{}"))]);

    let res = duplicate.push_struct_patch(
        &mut ctx,
        &mut assignments,
        PatchTarget {
            path: &[],
            is_ref: false,
        },
    );

    assert!(res.is_ok());
    assert_eq!(ctx.errors.len(), 1);
    assert!(ctx.errors[0]
        .message
        .contains("Duplicate field `x` found in BSN struct"));
}

#[test]
fn recursive_duplicate_field() {
    let mut refs = EntityRefs::default();
    let paths = TestPaths::new();
    let mut ctx = paths.ctx(&mut refs);
    let mut assignments = vec![];
    let nested_duplicate = struct_type(
        "Parent",
        vec![named(
            "child_field",
            Some(BsnValue::Type(struct_type(
                "Child",
                vec![named("x", expr("{}")), named("x", expr("{}"))],
            ))),
        )],
    );

    let res = nested_duplicate.to_patch_tokens(
        &mut ctx,
        &mut assignments,
        true,
        PatchTarget {
            path: &[],
            is_ref: false,
        },
    );

    assert!(res.is_ok());
    assert_eq!(ctx.errors.len(), 1);
    assert!(ctx.errors[0]
        .message
        .contains("Duplicate field `x` found in BSN struct"));
}

#[test]
fn missing_struct_field() {
    let mut refs = EntityRefs::default();
    let paths = TestPaths::new();
    let mut ctx = paths.ctx(&mut refs);
    let mut assignments = Vec::new();
    let missing = struct_type("Transform", vec![named("x", None)]);

    let res = missing.push_struct_patch(
        &mut ctx,
        &mut assignments,
        PatchTarget {
            path: &[Member::Named(ident("value"))],
            is_ref: false,
        },
    );

    assert!(res.is_ok());
    assert_eq!(ctx.errors.len(), 1);
    assert!(ctx.errors[0]
        .message
        .contains("Field `x` is missing a value"));
    // The field is still mentioned.
    assert_eq!(assignments.len(), 1);
    assert_eq!(render(&assignments[0]), "value . x ;");
}

#[test]
fn enum_duplicate_field() {
    // Arrange
    let mut refs = EntityRefs::default();
    let paths = TestPaths::new();
    let mut ctx = paths.ctx(&mut refs);
    let mut assignments = vec![];
    let duplicate = BsnType {
        path: words("MyEnum"),
        enum_variant: Some(ident("Variant")),
        fields: BsnFields::Named(vec![named("x", expr("1")), named("x", expr("2"))]),
    };

    // Act
    let res = duplicate.push_enum_patch(
        &mut ctx,
        &ident("Variant"),
        &mut assignments,
        PatchTarget {
            path: &[],
            is_ref: false,
        },
    );

    // Assert
    assert!(res.is_ok());
    assert_eq!(ctx.errors.len(), 1);
    assert!(ctx.errors[0]
        .message
        .contains("Duplicate field `x` found in BSN enum variant"));
}

#[test]
fn bsn_root_preserves_inference_on_error() {
    // Arrange
    let expected = "bevy_scene :: SceneScope ({ let _res = bevy_scene :: auto_nest_tuple \
        ! () ; :: core :: compile_error ! { \"Test Error\" } _res })";

    let mut refs = EntityRefs::default();
    let paths = TestPaths::new();
    let mut ctx = paths.ctx(&mut refs);
    ctx.errors.push(Error::new(Span::call_site(), "Test Error"));
    let root = BsnRoot(Bsn::<true> { entries: vec![] });

    // Act
    let res = render(&root.to_tokens(&mut ctx));

    // Assert
    assert_eq!(res, expected);
}

#[test]
fn bsn_list_root_preserves_inference_on_error() {
    // Arrange
    let expected =
        "{ let _res = bevy_scene :: SceneListScope (bevy_scene :: auto_nest_tuple ! ()) ;"
            .to_string()
            + " :: core :: compile_error ! { \"Test Error\" }"
            + " _res }";

    let mut refs = EntityRefs::default();
    let paths = TestPaths::new();
    let mut ctx = paths.ctx(&mut refs);
    ctx.errors.push(Error::new(Span::call_site(), "Test Error"));
    let root = BsnListRoot(BsnSceneListItems(vec![]));

    // Act
    let res = render(&root.to_tokens(&mut ctx));

    // Assert
    assert_eq!(res, expected);
}

#[test]
fn rewrite_async_closure_rewrites_entity_captures() {
    let mut refs = EntityRefs::default();
    let paths = TestPaths::new();
    let mut ctx = paths.ctx(&mut refs);
    let mut captured_indices = Vec::new();

    let rewritten = rewrite_async_closure_tokens(
        TokenStream::from_str(
            "async |world: AsyncWorld| { let first = #Foo; let pair = (#Bar, #Foo); bsn! { #Baz } }",
        )
        .unwrap(),
        &mut ctx,
        &mut captured_indices,
    )
    .unwrap();

    assert_eq!(captured_indices, vec![0, 1, 0]);

    let rendered = render(&rewritten);
    assert!(rendered.contains("async move | world : AsyncWorld , __bsn_scoped_entities : Vec < bevy_ecs :: entity :: Entity > |"));
    assert!(rendered.contains("let __bsn_scoped_entity_0 = __bsn_scoped_entities ["));
    assert!(rendered.contains("let __bsn_scoped_entity_1 = __bsn_scoped_entities ["));
    assert!(rendered.contains(". clone () ;"));
    assert!(rendered.contains("let first = __bsn_scoped_entity_0 ;"));
    assert!(rendered.contains("bsn ! { # Baz }"));
}

/// The text without white space.
fn squash(text: &str) -> String {
    text.chars().filter(|c| !c.is_whitespace()).collect()
}

/// Whether the tokens are those of the source text.
fn assert_source(tokens: &Tokens, source: &str) {
    assert_eq!(squash(&render(tokens)), squash(source));
}

/// Generates one entry in a fresh context.
fn generate(entry: BsnEntry) -> (Result<Tokens, Error>, Vec<String>, Vec<String>) {
    let mut refs = EntityRefs::default();
    let paths = TestPaths::new();
    let mut ctx = paths.ctx(&mut refs);
    let tokens = entry.try_to_tokens(&mut ctx);
    let errors = ctx.errors.iter().map(|e| e.message.clone()).collect();
    (tokens, refs.names, errors)
}

fn literal(text: &str) -> Literal {
    Literal {
        text: text.to_string(),
        span: Span::call_site(),
    }
}

fn unnamed(value: BsnValue) -> BsnUnnamedField {
    BsnUnnamedField { value }
}

fn tuple_type(path: &str, fields: Vec<BsnUnnamedField>) -> BsnType {
    BsnType {
        path: words(path),
        enum_variant: None,
        fields: BsnFields::Tuple(fields),
    }
}

fn variant_type(path: &str, variant: &str, fields: BsnFields) -> BsnType {
    BsnType {
        path: words(path),
        enum_variant: Some(ident(variant)),
        fields,
    }
}

/// The statements of a patch, the errors found and the names known.
fn patch(ty: BsnType, is_root: bool, is_ref: bool) -> (Vec<String>, Vec<String>, Vec<String>) {
    let mut refs = EntityRefs::default();
    let paths = TestPaths::new();
    let mut ctx = paths.ctx(&mut refs);
    let mut assignments = vec![];
    let path = [Member::Named(ident("value"))];
    let target = PatchTarget { path: &path, is_ref };
    assert!(ty
        .to_patch_tokens(&mut ctx, &mut assignments, is_root, target)
        .is_ok());
    let errors = ctx.errors.iter().map(|e| e.message.clone()).collect();
    let statements = assignments.iter().map(|a| squash(&render(a))).collect();
    (statements, errors, refs.names)
}

#[test]
fn indices_are_sequential_and_stable() {
    let mut refs = EntityRefs::default();
    assert_eq!(refs.get("A".to_string()), 0);
    assert_eq!(refs.get("B".to_string()), 1);
    assert_eq!(refs.get("A".to_string()), 0);
    assert_eq!(refs.get("C".to_string()), 2);
    assert_eq!(refs.get("B".to_string()), 1);
    assert_eq!(refs.names, vec!["A", "B", "C"]);
}

#[test]
fn error_becomes_compile_error() {
    let error = Error::new(Span::call_site(), "say \"no\"");
    assert_eq!(
        render(&error.to_compile_error()),
        ":: core :: compile_error ! { \"say \\\"no\\\"\" }"
    );
}

#[test]
fn name_entry() {
    let (tokens, names, errors) = generate(BsnEntry::Name(ident("Root")));
    assert_source(
        &tokens.unwrap(),
        "bevy_scene::NameEntityReference { name: bevy_ecs::name::Name(\"Root\".into()), index: 0usize }",
    );
    assert_eq!(names, vec!["Root"]);
    assert!(errors.is_empty());
}

#[test]
fn name_expression_entry() {
    let (tokens, names, _) = generate(BsnEntry::NameExpression(words("my_name")));
    assert_source(
        &tokens.unwrap(),
        "<bevy_ecs::name::Name as bevy_scene::PatchFromTemplate>::patch(move |value, _context| { \
         *value = bevy_ecs::Name({ my_name }.into()); })",
    );
    assert!(names.is_empty());
}

#[test]
fn template_const_entry() {
    let (tokens, _, _) = generate(BsnEntry::TemplateConst {
        type_path: words("a::T"),
        const_ident: ident("ZERO"),
    });
    assert_source(
        &tokens.unwrap(),
        "<a::T as bevy_scene::PatchTemplate>::patch_template(move |value, _context| { \
         *value = a::T::ZERO; })",
    );
}

#[test]
fn scene_expression_entry() {
    let (tokens, _, _) = generate(BsnEntry::SceneExpression(words("{ button() }")));
    assert_eq!(render(&tokens.unwrap()), "{ { button () } }");
}

fn constructor() -> BsnConstructor {
    BsnConstructor {
        type_path: words("Text"),
        function: ident("new"),
        args: words("\"a\", 1"),
    }
}

#[test]
fn constructor_entries() {
    let (tokens, _, _) = generate(BsnEntry::TemplateConstructor(constructor()));
    assert_source(
        &tokens.unwrap(),
        "<Text as bevy_scene::PatchTemplate>::patch_template(move |value, _context| { \
         *value = Text::new(\"a\", 1); })",
    );
    let (tokens, _, _) = generate(BsnEntry::FromTemplateConstructor(constructor()));
    assert_source(
        &tokens.unwrap(),
        "<Text as bevy_scene::PatchFromTemplate>::patch(move |value, _context| { \
         *value = <Text as bevy_ecs::template::FromTemplate>::Template::new(\"a\", 1); })",
    );
}

#[test]
fn inherited_scene_entries() {
    let (tokens, _, _) = generate(BsnEntry::InheritedScene(BsnInheritedScene::Asset(literal(
        "\"player.bsn\"",
    ))));
    assert_source(
        &tokens.unwrap(),
        "bevy_scene::InheritSceneAsset::from(\"player.bsn\")",
    );
    let (tokens, _, _) = generate(BsnEntry::InheritedScene(BsnInheritedScene::Fn {
        function: words("ui::button"),
        args: words("1, 2"),
    }));
    assert_source(
        &tokens.unwrap(),
        "bevy_scene::SceneScope(ui::button(1, 2))",
    );
}

#[test]
fn template_patch_entries() {
    let ty = || struct_type("Node", vec![named("width", Some(BsnValue::Ident(ident("w"))))]);
    let (tokens, _, _) = generate(BsnEntry::TemplatePatch(ty()));
    assert_source(
        &tokens.unwrap(),
        "<Node as bevy_scene::PatchTemplate>::patch_template(move |value, _context| { \
         value.width = (w).into(); })",
    );
    let (tokens, _, _) = generate(BsnEntry::FromTemplatePatch(ty()));
    assert_source(
        &tokens.unwrap(),
        "<Node as bevy_scene::PatchFromTemplate>::patch(move |value, _context| { \
         value.width = (w).into(); })",
    );
}

#[test]
fn related_scenes_share_names() {
    let items = BsnSceneListItems(vec![
        BsnSceneListItem::Scene(scene(vec![BsnEntry::Name(ident("Child"))])),
        BsnSceneListItem::Expression(vec![words("let x = 1;"), words("x")]),
        BsnSceneListItem::Scene(scene(vec![
            BsnEntry::Name(ident("Other")),
            BsnEntry::Name(ident("Child")),
        ])),
    ]);
    let (tokens, names, _) = generate(BsnEntry::RelatedSceneList(BsnRelatedSceneList {
        relationship_path: words("Children"),
        scene_list: BsnSceneList(items),
    }));
    let name = |name: &str, index: &str| {
        format!(
            "bevy_scene::NameEntityReference {{ name: bevy_ecs::name::Name(\"{}\".into()), index: {}usize }}",
            name, index
        )
    };
    let expected = format!(
        "bevy_scene::RelatedScenes::<<Children as bevy_ecs::relationship::RelationshipTarget>\
         ::Relationship, _>::new(bevy_scene::auto_nest_tuple!(\
         bevy_scene::EntityScene(bevy_scene::auto_nest_tuple!({})), \
         let x = 1; x, \
         bevy_scene::EntityScene(bevy_scene::auto_nest_tuple!({}, {}))))",
        name("Child", "0"),
        name("Other", "1"),
        name("Child", "0")
    );
    assert_source(&tokens.unwrap(), &expected);
    assert_eq!(names, vec!["Child", "Other"]);
}

#[test]
fn values_as_expressions() {
    let site = Span::call_site();
    let text = |value: BsnValue| {
        let mut tokens = Tokens::new();
        value.to_tokens(&mut tokens, site);
        squash(&render(&tokens))
    };
    assert_eq!(text(BsnValue::Expr(words("a + b"))), "{a+b}.into()");
    assert_eq!(text(BsnValue::Closure(words("|x| x"))), "(|x|x).into()");
    assert_eq!(text(BsnValue::Ident(ident("x"))), "(x).into()");
    assert_eq!(text(BsnValue::Lit(Lit::Str(literal("\"s\"")))), "\"s\".into()");
    assert_eq!(text(BsnValue::Lit(Lit::Other(words("- 1.5")))), "-1.5");
    assert_eq!(
        text(BsnValue::Tuple(BsnTuple(vec![
            BsnValue::Lit(Lit::Other(words("1"))),
            BsnValue::Ident(ident("x")),
        ]))),
        "(1,(x).into())"
    );
    assert_eq!(text(BsnValue::Tuple(BsnTuple(vec![]))), "()");
    assert_eq!(
        text(BsnValue::Type(variant_type(
            "Val",
            "Px",
            BsnFields::Tuple(vec![unnamed(BsnValue::Lit(Lit::Other(words("3"))))]),
        ))),
        "Val::Px(3,)"
    );
    assert_eq!(
        text(BsnValue::Type(struct_type(
            "Size",
            vec![named("w", Some(BsnValue::Ident(ident("x")))), named("h", None)],
        ))),
        "Size{w:(x).into(),h:,}"
    );
}

#[test]
fn struct_patch_statements() {
    let ty = struct_type(
        "Node",
        vec![
            named("a", expr("1")),
            named("target", Some(BsnValue::Name(ident("Goal")))),
            named(
                "kind",
                Some(BsnValue::Type(variant_type("Kind", "Big", BsnFields::Tuple(vec![])))),
            ),
            named(
                "inner",
                Some(BsnValue::Type(tuple_type(
                    "Inner",
                    vec![unnamed(BsnValue::Ident(ident("x"))), unnamed(BsnValue::Name(ident("Goal")))],
                ))),
            ),
        ],
    );
    let (statements, errors, names) = patch(ty, true, true);
    let reference = "bevy_ecs::template::EntityTemplate::ScopedEntityIndex(\
        bevy_ecs::template::ScopedEntityIndex{scope:_context.current_entity_scope(),index:0usize})";
    assert_eq!(
        statements,
        vec![
            "value.a={1}.into();".to_string(),
            format!("value.target={};", reference),
            "value.kind=Kind::Big();".to_string(),
            "bevy_scene::macro_utils::touch_type::<Inner>();".to_string(),
            "value.inner.0=(x).into();".to_string(),
            format!("value.inner.1={};", reference),
        ]
    );
    assert!(errors.is_empty());
    assert_eq!(names, vec!["Goal"]);
}

#[test]
fn repeated_and_missing_fields_do_not_stop_the_others() {
    let ty = struct_type(
        "T",
        vec![
            named("x", None),
            named("x", expr("1")),
            named("y", expr("2")),
            named("x", expr("3")),
        ],
    );
    let (statements, errors, _) = patch(ty, false, true);
    assert_eq!(
        statements,
        vec![
            "bevy_scene::macro_utils::touch_type::<T>();",
            "value.x;",
            "value.y={2}.into();"
        ]
    );
    assert_eq!(
        errors,
        vec![
            "Field `x` is missing a value.",
            "Duplicate field `x` found in BSN struct",
            "Duplicate field `x` found in BSN struct",
        ]
    );
}

#[test]
fn enum_patch_by_reference() {
    let ty = variant_type(
        "Val",
        "PxSize",
        BsnFields::Named(vec![
            named("w", expr("1")),
            named("h", None),
            named(
                "inner",
                Some(BsnValue::Type(struct_type("In", vec![named("z", expr("2"))]))),
            ),
        ]),
    );
    let (statements, errors, _) = patch(ty, true, true);
    let helper = "bevy_scene::macro_utils::PathResolveHelper::<<Val as \
        bevy_ecs::template::FromTemplate>::Template>";
    let expected = format!(
        "{{ let _node = value; \
         if !matches!(_node, {h}::PxSize {{ .. }}) {{ *_node = {h}::default_pxsize(); }} \
         if let {h}::PxSize {{ w, h, inner, .. }} = _node {{ \
           *w = {{1}}.into(); \
           h; \
           bevy_scene::macro_utils::touch_type::<In>(); \
           inner.z = {{2}}.into(); \
         }} }}",
        h = helper
    );
    assert_eq!(statements, vec![squash(&expected)]);
    assert_eq!(errors, vec!["Enum field `h` is missing a value"]);
}

#[test]
fn enum_patch_by_value() {
    let helper = "bevy_scene::macro_utils::PathResolveHelper::<<Val as \
        bevy_ecs::template::FromTemplate>::Template>";
    let unit = variant_type("Val", "Auto", BsnFields::Tuple(vec![]));
    let (statements, _, _) = patch(unit, true, false);
    let expected = format!(
        "{{ let _node = &mut value; \
         if !matches!(_node, {h}::Auto) {{ _node = {h}::default_auto(); }} \
         if let {h}::Auto = _node {{ }} }}",
        h = helper
    );
    assert_eq!(statements, vec![squash(&expected)]);

    let tuple = variant_type(
        "Val",
        "Two",
        BsnFields::Tuple(vec![
            unnamed(BsnValue::Ident(ident("a"))),
            unnamed(BsnValue::Ident(ident("b"))),
        ]),
    );
    let (statements, _, _) = patch(tuple, true, false);
    let expected = format!(
        "{{ let _node = &mut value; \
         if !matches!(_node, {h}::Two(..)) {{ _node = {h}::default_two(); }} \
         if let {h}::Two(t0, t1, ..) = _node {{ *t0 = (a).into(); *t1 = (b).into(); }} }}",
        h = helper
    );
    assert_eq!(statements, vec![squash(&expected)]);
}

#[test]
fn closure_entry() {
    let (tokens, names, errors) = generate(BsnEntry::AsyncClosure(BsnAsyncClosure {
        tokens: words("async |ui: Ctx| { f(#B, [#A, #B]); bsn_ui! { #C } }"),
    }));
    assert_source(
        &tokens.unwrap(),
        "::bevy_malek_async::async_ui::AsyncClosureWrapper2( \
         async move |ui: Ctx, __bsn_scoped_entities: Vec<bevy_ecs::entity::Entity>| { \
           let __bsn_scoped_entity_0 = __bsn_scoped_entities[0usize].clone(); \
           let __bsn_scoped_entity_1 = __bsn_scoped_entities[1usize].clone(); \
           let __bsn_scoped_entity_2 = __bsn_scoped_entities[2usize].clone(); \
           f(__bsn_scoped_entity_0, [__bsn_scoped_entity_1, __bsn_scoped_entity_2]); \
           bsn_ui! { #C } \
         }, vec![0usize, 1usize, 0usize], )",
    );
    assert_eq!(names, vec!["B", "A"]);
    assert!(errors.is_empty());
}

#[test]
fn closure_as_documented() {
    let mut refs = EntityRefs::default();
    let paths = TestPaths::new();
    let mut ctx = paths.ctx(&mut refs);
    let mut captured = Vec::new();
    let rewritten = rewrite_async_closure_tokens(
        TokenStream::from_str("async |world: AsyncWorld| { let my_entity: Entity = #Name; }")
            .unwrap(),
        &mut ctx,
        &mut captured,
    )
    .unwrap();
    assert_eq!(captured, vec![0]);
    assert_source(
        &rewritten,
        "async move |world: AsyncWorld, __bsn_scoped_entities: Vec<bevy_ecs::entity::Entity>| { \
           let __bsn_scoped_entity_0 = __bsn_scoped_entities[0usize].clone(); \
           let my_entity: Entity = __bsn_scoped_entity_0; \
         }",
    );
}

#[test]
fn closure_without_parameters_or_captures() {
    let (tokens, names, _) = generate(BsnEntry::AsyncClosure(BsnAsyncClosure {
        tokens: words("async || { work(); }"),
    }));
    assert_source(
        &tokens.unwrap(),
        "::bevy_malek_async::async_ui::AsyncClosureWrapper2( \
         async move |__bsn_scoped_entities: Vec<bevy_ecs::entity::Entity>| { work(); }, vec![], )",
    );
    assert!(names.is_empty());
}

/// The message of the error that a closure is refused with.
fn refusal(text: &str) -> String {
    let mut refs = EntityRefs::default();
    let paths = TestPaths::new();
    let mut ctx = paths.ctx(&mut refs);
    let mut captured = Vec::new();
    let stream = TokenStream::from_str(text).unwrap();
    let message = rewrite_async_closure_tokens(stream, &mut ctx, &mut captured)
        .unwrap_err()
        .message;
    assert!(ctx.errors.is_empty());
    message
}

#[test]
fn misshapen_closures_are_refused() {
    assert_eq!(refusal(""), "expected async closure, found empty token stream");
    assert_eq!(refusal("|x| {}"), "expected `async` at the start of async closure");
    assert_eq!(refusal("async"), "expected `|` after `async`");
    assert_eq!(refusal("async {}"), "expected `|` after `async`");
    assert_eq!(
        refusal("async |x {}"),
        "unterminated async closure parameter list; missing closing `|`"
    );
    assert_eq!(
        refusal("async |x|"),
        "expected `{ ... }` body after async closure parameters"
    );
    assert_eq!(
        refusal("async |x| (1)"),
        "expected `{ ... }` body after async closure parameters"
    );
    assert_eq!(
        refusal("async |x| {} + 1"),
        "unexpected trailing tokens after async closure body"
    );
    assert_eq!(
        refusal("async |x| { f(#) }"),
        "`#` in async BSN closure must be followed by an identifier"
    );
}

#[test]
fn refused_closure_becomes_compile_error_among_the_entries() {
    let mut refs = EntityRefs::default();
    let paths = TestPaths::new();
    let mut ctx = paths.ctx(&mut refs);
    let bsn = scene(vec![
        BsnEntry::AsyncClosure(BsnAsyncClosure {
            tokens: words("async |x| { #A; # }"),
        }),
        BsnEntry::Name(ident("B")),
    ]);
    let tokens = bsn.to_tokens(&mut ctx);
    assert_source(
        &tokens,
        "bevy_scene::auto_nest_tuple!( \
         ::core::compile_error! { \"`#` in async BSN closure must be followed by an identifier\" }, \
         bevy_scene::NameEntityReference { name: bevy_ecs::name::Name(\"B\".into()), index: 1usize })",
    );
    // What was captured before the error keeps its index.
    assert_eq!(refs.names, vec!["A", "B"]);
}

#[test]
fn unmarked_body_is_unchanged() {
    let mut refs = EntityRefs::default();
    let paths = TestPaths::new();
    let mut ctx = paths.ctx(&mut refs);
    let mut captured = Vec::new();
    let rewritten = rewrite_async_closure(
        words("async |x| { if a { b(c) } else { [d; 2] } }"),
        &mut ctx,
        &mut captured,
    )
    .unwrap();
    assert!(captured.is_empty());
    assert!(squash(&render(&rewritten)).contains("|{ifa{b(c)}else{[d;2]}}"));
}

#[test]
fn marks_that_name_nothing_are_kept() {
    let mut refs = EntityRefs::default();
    let paths = TestPaths::new();
    let mut ctx = paths.ctx(&mut refs);
    let mut captured = Vec::new();
    let rewritten = rewrite_async_closure(
        words("async |x| { #[attr(#A)] let bsn = 1; bsn + #B }"),
        &mut ctx,
        &mut captured,
    )
    .unwrap();
    assert_eq!(captured, vec![0]);
    assert!(squash(&render(&rewritten))
        .contains(".clone();#[attr(#A)]letbsn=1;bsn+__bsn_scoped_entity_0}"));
    assert_eq!(refs.names, vec!["B"]);
}

#[test]
fn captures_go_on_where_they_stand() {
    let mut refs = EntityRefs::default();
    let paths = TestPaths::new();
    let mut ctx = paths.ctx(&mut refs);
    let mut captured = vec![7];
    let rewritten =
        rewrite_async_closure(words("async |x| { #A }"), &mut ctx, &mut captured).unwrap();
    assert_eq!(captured, vec![7, 0]);
    assert!(squash(&render(&rewritten)).contains(".clone();__bsn_scoped_entity_1}"));
}

#[test]
fn roots_report_errors_after_the_scene() {
    let mut refs = EntityRefs::default();
    let paths = TestPaths::new();
    let mut ctx = paths.ctx(&mut refs);
    ctx.errors.push(Error::new(Span::call_site(), "first"));
    let root = BsnRoot(scene(vec![BsnEntry::FromTemplatePatch(struct_type(
        "T",
        vec![named("x", None)],
    ))]));
    let tokens = root.to_tokens(&mut ctx);
    assert_source(
        &tokens,
        "bevy_scene::SceneScope({ \
         let _res = bevy_scene::auto_nest_tuple!( \
           <T as bevy_scene::PatchFromTemplate>::patch(move |value, _context| { value.x; })); \
         ::core::compile_error! { \"first\" } \
         ::core::compile_error! { \"Field `x` is missing a value.\" } \
         _res })",
    );
}

#[test]
fn tokens_keep_their_spacing() {
    let mut refs = EntityRefs::default();
    let paths = TestPaths::new();
    let mut ctx = paths.ctx(&mut refs);
    let mut captured = Vec::new();
    let rewritten = rewrite_async_closure_tokens(
        TokenStream::from_str("async |a: &'b T| { x::<Y>() != r#raw && 'c' == \"d\" }").unwrap(),
        &mut ctx,
        &mut captured,
    )
    .unwrap();
    let rendered = render(&rewritten);
    for part in ["a: &'b T", "x::<Y>() != r#raw && 'c' == \"d\""] {
        let expected = TokenStream::from_str(part).unwrap().to_string();
        assert!(rendered.contains(&expected), "{} not in {}", expected, rendered);
    }
}

#[test]
fn ungenerable_scenes_are_told_apart() {
    let name = || BsnValue::Name(ident("A"));
    let patch = |ty: BsnType| BsnEntry::FromTemplatePatch(ty).is_generable();
    // A reference to a named entity can be the value of a field, but not part of a value.
    assert!(patch(struct_type("T", vec![named("x", Some(name()))])));
    assert!(patch(tuple_type("T", vec![unnamed(name())])));
    let tuple = BsnValue::Tuple(BsnTuple(vec![BsnValue::Ident(ident("x")), name()]));
    assert!(!tuple.is_printable());
    assert!(!patch(struct_type("T", vec![named("x", Some(tuple))])));
    let tuple = BsnValue::Tuple(BsnTuple(vec![name()]));
    assert!(!patch(tuple_type("T", vec![unnamed(tuple)])));
    assert!(!patch(variant_type("T", "V", BsnFields::Tuple(vec![unnamed(name())]))));
    assert!(!patch(variant_type("T", "V", BsnFields::Named(vec![named("x", Some(name()))]))));
    // A repetition is skipped, whatever its value.
    assert!(patch(variant_type(
        "T",
        "V",
        BsnFields::Named(vec![named("x", None), named("x", Some(name()))])
    )));
    // The variant that is patched has no raw name.
    assert!(!patch(variant_type("T", "r#V", BsnFields::Tuple(vec![]))));
    let inner = variant_type("T", "r#V", BsnFields::Tuple(vec![]));
    assert!(patch(struct_type("T", vec![named("x", Some(BsnValue::Type(inner)))])));

    let bad = || scene(vec![BsnEntry::TemplatePatch(variant_type("T", "r#V", BsnFields::Tuple(vec![])))]);
    assert!(!BsnRoot(bad()).is_generable());
    assert!(BsnRoot(scene(vec![BsnEntry::Name(ident("A"))])).is_generable());
    let items = BsnSceneListItems(vec![
        BsnSceneListItem::Expression(vec![]),
        BsnSceneListItem::Scene(bad()),
    ]);
    let related = BsnEntry::RelatedSceneList(BsnRelatedSceneList {
        relationship_path: words("Children"),
        scene_list: BsnSceneList(items),
    });
    assert!(!BsnListRoot(BsnSceneListItems(vec![BsnSceneListItem::Scene(scene(vec![related]))]))
        .is_generable());
}

#[test]
fn names_hold_no_null_characters() {
    assert!(BsnEntry::Name(ident("A")).is_generable());
    assert!(!BsnEntry::Name(ident("A\0")).is_generable());
}

#[test]
fn every_message_is_reported() {
    let mut refs = EntityRefs::default();
    let paths = TestPaths::new();
    let mut ctx = paths.ctx(&mut refs);
    for message in ["a \"quoted\"\nmessage", "a\0b", "last"] {
        ctx.errors.push(Error::new(Span::call_site(), message));
    }
    let rendered = render(&BsnRoot(scene(vec![])).to_tokens(&mut ctx));
    assert_eq!(rendered.matches("compile_error").count(), 3);
    let first = rendered.find(r#""a \"quoted\"\nmessage""#).unwrap();
    let second = rendered.find(r#""a\0b""#).unwrap();
    let third = rendered.find(r#""last""#).unwrap();
    assert!(rendered.find("let _res").unwrap() < first && first < second && second < third);
    assert_eq!(ctx.errors.len(), 3);
}

#[test]
fn numbers_are_written_in_decimal() {
    for n in [0, 7, 9, 10, 99, 100, 1_234_567_890, usize::MAX] {
        assert_eq!(decimal_text(n), n.to_string());
        assert_eq!(usize_text(n), format!("{n}usize"));
    }
}

/// Rewrites runs of a closure body, one after the other.
fn rewrite_runs(runs: &[&str]) -> (String, Vec<usize>, Vec<String>, Option<String>) {
    let mut refs = EntityRefs::default();
    let paths = TestPaths::new();
    let mut ctx = paths.ctx(&mut refs);
    let mut captured = Vec::new();
    let mut out = String::new();
    for run in runs {
        match rewrite_async_closure_body_stream(&words(run), &mut ctx, &mut captured) {
            Ok(tokens) => out.push_str(&squash(&render(&tokens))),
            Err(error) => return (out, captured, refs.names, Some(error.message)),
        }
    }
    (out, captured, refs.names, None)
}

#[test]
fn body_can_be_rewritten_in_runs() {
    let whole = rewrite_runs(&["f(#A); bsn! { #B } g(#C, [#A])"]);
    assert_eq!(whole, rewrite_runs(&["f(#A);", "bsn! { #B }", "g(#C, [#A])"]));
    assert_eq!(whole.1, vec![0, 1, 0]);
    assert_eq!(whole.2, vec!["A", "C"]);
    assert_eq!(
        whole.0,
        "f(__bsn_scoped_entity_0);bsn!{#B}g(__bsn_scoped_entity_1,[__bsn_scoped_entity_2])"
    );
    let message = "`#` in async BSN closure must be followed by an identifier";
    let refused = rewrite_runs(&["#A", "(#)", "#B"]);
    assert_eq!(refused.3.as_deref(), Some(message));
    assert_eq!(refused.2, vec!["A"]);
    // Not between the name of a scene macro and what belongs to it.
    assert_eq!(rewrite_runs(&["bsn! { #B }"]).1, Vec::<usize>::new());
    assert_eq!(rewrite_runs(&["bsn", "! { #B }"]).1, vec![0]);
}

#[test]
fn mentions_of_a_name_share_its_index() {
    let mut refs = EntityRefs::default();
    let paths = TestPaths::new();
    let mut ctx = paths.ctx(&mut refs);
    let name = |text| Some(BsnValue::Name(ident(text)));
    let mut tokens = |entry: BsnEntry| squash(&render(&entry.try_to_tokens(&mut ctx).unwrap()));
    let fields = tokens(BsnEntry::TemplatePatch(struct_type(
        "T",
        vec![named("x", name("B")), named("y", name("A"))],
    )));
    let closure = tokens(BsnEntry::AsyncClosure(BsnAsyncClosure {
        tokens: words("async |ui| { #A; #C; #B }"),
    }));
    let own_name = tokens(BsnEntry::Name(ident("A")));
    let later = tokens(BsnEntry::Name(ident("C")));
    assert!(fields.contains("index:0usize") && fields.contains("index:1usize"), "{fields}");
    assert!(fields.find("index:0usize") < fields.find("index:1usize"));
    assert!(closure.contains("vec![1usize,2usize,0usize]"), "{closure}");
    assert!(own_name.contains("index:1usize"), "{own_name}");
    assert!(later.contains("index:2usize"), "{later}");
    assert_eq!(refs.names, vec!["B", "A", "C"]);
}
