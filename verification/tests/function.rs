use z3::{Ast, Call, Context, Error, Function, Object, Pattern, Request, Sort, Symbol};

const CTX: usize = 0x1000;

#[test]
fn declaration_passes_the_signature_as_given() {
    let ctx = Context::new(CTX).unwrap();
    let (name, _) = Symbol::new(&ctx, 0x11).unwrap();
    let (int, _) = Sort::new(&ctx, 0x21).unwrap();
    let (real, _) = Sort::new(&ctx, 0x22).unwrap();
    let (boolean, _) = Sort::new(&ctx, 0x23).unwrap();
    assert_eq!(
        Function::new_decl(&name, &[&int, &real, &int], &boolean).1,
        Request {
            ctx: CTX,
            call: Call::MkFuncDecl { name: 0x11, domain: vec![0x21, 0x22, 0x21], range: 0x23 },
        }
    );
}

#[test]
fn constant_is_declared_with_an_empty_domain() {
    let ctx = Context::new(CTX).unwrap();
    let (name, _) = Symbol::new(&ctx, 0x11).unwrap();
    let (int, _) = Sort::new(&ctx, 0x21).unwrap();
    assert_eq!(
        Function::new_decl(&name, &[], &int).1,
        Request { ctx: CTX, call: Call::MkFuncDecl { name: 0x11, domain: vec![], range: 0x21 } }
    );
}

#[test]
fn declaration_goes_to_the_environment_of_the_name() {
    let one = Context::new(0x1000).unwrap();
    let other = Context::new(0x2000).unwrap();
    let (name, _) = Symbol::new(&other, 0x11).unwrap();
    let (int, _) = Sort::new(&one, 0x21).unwrap();
    let (pending, request) = Function::new_decl(&name, &[&int], &int);
    assert_eq!(request.ctx, 0x2000);
    let (f, retain) = pending.resume(0x31).unwrap();
    assert_eq!(f.context().raw(), 0x2000);
    assert_eq!(retain.ctx, 0x2000);
}

#[test]
fn fresh_declaration_passes_prefix_and_signature() {
    let ctx = Context::new(CTX).unwrap();
    let (int, _) = Sort::new(&ctx, 0x21).unwrap();
    let (boolean, _) = Sort::new(&ctx, 0x23).unwrap();
    assert_eq!(
        Function::fresh_decl("skolem", &[&int, &boolean], &int).1,
        Request {
            ctx: CTX,
            call: Call::MkFreshFuncDecl {
                prefix: "skolem".to_string(),
                domain: vec![0x21, 0x23],
                range: 0x21,
            },
        }
    );
    assert_eq!(
        Function::fresh_decl("", &[], &boolean).1,
        Request {
            ctx: CTX,
            call: Call::MkFreshFuncDecl { prefix: String::new(), domain: vec![], range: 0x23 },
        }
    );
}

#[test]
fn fresh_declaration_goes_to_the_environment_of_the_range() {
    let one = Context::new(0x1000).unwrap();
    let other = Context::new(0x2000).unwrap();
    let (int, _) = Sort::new(&one, 0x21).unwrap();
    let (boolean, _) = Sort::new(&other, 0x23).unwrap();
    let (pending, request) = Function::fresh_decl("p", &[&int], &boolean);
    assert_eq!(request.ctx, 0x2000);
    let (f, _) = pending.resume(0x31).unwrap();
    assert_eq!(f.context().raw(), 0x2000);
}

/// Declare `f: Int -> Int`, apply it to one term: the application is asked
/// for with that term, and the handle the engine answers with is a term.
#[test]
fn declare_then_apply_with_matching_arity() {
    let ctx = Context::new(CTX).unwrap();
    let (name, _) = Symbol::new(&ctx, 0x11).unwrap();
    let (int, _) = Sort::new(&ctx, 0x21).unwrap();
    let (declaring, declare) = Function::new_decl(&name, &[&int], &int);
    assert_eq!(
        declare.call,
        Call::MkFuncDecl { name: 0x11, domain: vec![0x21], range: 0x21 }
    );
    let (f, retain) = declaring.resume(0x31).unwrap();
    assert_eq!(f.raw(), 0x31);
    assert_eq!(retain, Request { ctx: CTX, call: Call::IncRef(Object::Declaration(0x31)) });
    let (x, _) = Ast::new(&ctx, 0x41).unwrap();
    let (applying, apply) = f.call(&[&x]);
    assert_eq!(apply, Request { ctx: CTX, call: Call::MkApp { func: 0x31, args: vec![0x41] } });
    let (fx, retain) = applying.resume(0x42).unwrap();
    assert_eq!(fx.raw(), 0x42);
    assert_eq!(retain, Request { ctx: CTX, call: Call::IncRef(Object::Term(0x42)) });
}

/// The binding does not count arguments: too few or too many go to the
/// engine as they are, and the null handle it answers with is refused.
#[test]
fn apply_with_mismatched_arity_is_left_to_the_engine() {
    let ctx = Context::new(CTX).unwrap();
    let (f, _) = Function::new(&ctx, 0x31).unwrap();
    let (x, _) = Ast::new(&ctx, 0x41).unwrap();
    let (y, _) = Ast::new(&ctx, 0x42).unwrap();
    let (applying, apply) = f.call(&[]);
    assert_eq!(apply.call, Call::MkApp { func: 0x31, args: vec![] });
    assert_eq!(applying.resume(0).err(), Some(Error::InvalidHandle));
    let (applying, apply) = f.call(&[&x, &y, &x]);
    assert_eq!(apply.call, Call::MkApp { func: 0x31, args: vec![0x41, 0x42, 0x41] });
    assert_eq!(applying.resume(0).err(), Some(Error::InvalidHandle));
}

#[test]
fn refused_declaration_is_an_invalid_handle() {
    let ctx = Context::new(CTX).unwrap();
    let (name, _) = Symbol::new(&ctx, 0x11).unwrap();
    let (int, _) = Sort::new(&ctx, 0x21).unwrap();
    let (declaring, _) = Function::new_decl(&name, &[&int], &int);
    assert_eq!(declaring.resume(0).err(), Some(Error::InvalidHandle));
    let (declaring, _) = Function::fresh_decl("f", &[&int], &int);
    assert_eq!(declaring.resume(0).err(), Some(Error::InvalidHandle));
}

#[test]
fn wrappers_of_one_declaration_ask_the_same_questions() {
    let ctx = Context::new(CTX).unwrap();
    let (a, _) = Function::new(&ctx, 0x31).unwrap();
    let (b, _) = Function::new(&ctx, 0x31).unwrap();
    let (c, _) = Function::new(&ctx, 0x32).unwrap();
    assert_eq!(a.structural_hash(), b.structural_hash());
    assert_eq!(
        a.structural_hash(),
        Request { ctx: CTX, call: Call::GetAstHash(Object::Declaration(0x31)) }
    );
    assert_eq!(
        a.structural_eq(&b),
        Request { ctx: CTX, call: Call::IsEqFuncDecl { left: 0x31, right: 0x31 } }
    );
    assert_eq!(a.structural_eq(&c), b.structural_eq(&c));
    assert_eq!(
        c.structural_eq(&a),
        Request { ctx: CTX, call: Call::IsEqFuncDecl { left: 0x32, right: 0x31 } }
    );
    assert_ne!(a.structural_hash(), c.structural_hash());
}

#[test]
fn wrappers_of_one_trigger_ask_the_same_questions() {
    let ctx = Context::new(CTX).unwrap();
    let (a, _) = Pattern::new(&ctx, 0x51).unwrap();
    let (b, _) = Pattern::new(&ctx, 0x51).unwrap();
    let (c, _) = Pattern::new(&ctx, 0x52).unwrap();
    assert_eq!(a.structural_hash(), b.structural_hash());
    assert_eq!(
        b.structural_hash(),
        Request { ctx: CTX, call: Call::GetAstHash(Object::Declaration(0x51)) }
    );
    assert_eq!(
        a.structural_eq(&c),
        Request { ctx: CTX, call: Call::IsEqFuncDecl { left: 0x51, right: 0x52 } }
    );
    assert_eq!(a.structural_eq(&c), b.structural_eq(&c));
}

#[test]
fn wrappers_of_one_term_ask_the_same_questions() {
    let ctx = Context::new(CTX).unwrap();
    let (a, _) = Ast::new(&ctx, 0x61).unwrap();
    let (b, _) = Ast::new(&ctx, 0x61).unwrap();
    let (c, _) = Ast::new(&ctx, 0x62).unwrap();
    assert_eq!(a.structural_hash(), b.structural_hash());
    assert_eq!(
        a.structural_hash(),
        Request { ctx: CTX, call: Call::GetAstHash(Object::Term(0x61)) }
    );
    assert_eq!(
        a.structural_eq(&b),
        Request { ctx: CTX, call: Call::IsEqAst { left: 0x61, right: 0x61 } }
    );
    assert_eq!(a.structural_eq(&c), b.structural_eq(&c));
    assert_eq!(
        c.structural_eq(&a),
        Request { ctx: CTX, call: Call::IsEqAst { left: 0x62, right: 0x61 } }
    );
}

#[test]
fn a_prefix_with_a_nul_is_told_from_one_without() {
    assert!(z3::function::is_nul_free(""));
    assert!(z3::function::is_nul_free("inv"));
    assert!(z3::function::is_nul_free("sk\u{e9}lem"));
    assert!(!z3::function::is_nul_free("a\0b"));
    assert!(!z3::function::is_nul_free("\0"));
    assert!(!z3::function::is_nul_free("ab\0"));
}
