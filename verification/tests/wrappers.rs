use std::collections::HashMap;
use z3::{
    Ast, Call, Config, Context, Error, Function, Model, Object, Optimize, Pattern, Request, Sort,
    Symbol,
};

const CTX: usize = 0x1000;

fn retain(object: Object) -> Request {
    Request { ctx: CTX, call: Call::IncRef(object) }
}

fn release(object: Object) -> Request {
    Request { ctx: CTX, call: Call::DecRef(object) }
}

#[test]
fn context_refuses_null_handle() {
    assert_eq!(Context::new(0).err(), Some(Error::InvalidHandle));
}

#[test]
fn context_keeps_its_handle_and_is_deleted_once() {
    let ctx = Context::new(CTX).unwrap();
    assert_eq!(ctx.raw(), CTX);
    assert_eq!(ctx.destroy(), Request { ctx: CTX, call: Call::DelContext });
}

#[test]
fn config_keeps_settings_in_order() {
    let mut cfg = Config::new();
    assert!(cfg.params().is_empty());
    cfg.set_param_value("model", "true");
    cfg.set_param_value("timeout", "100");
    cfg.set_param_value("model", "false");
    assert_eq!(
        cfg.params(),
        &vec![
            ("model".to_string(), "true".to_string()),
            ("timeout".to_string(), "100".to_string()),
            ("model".to_string(), "false".to_string()),
        ]
    );
}

#[test]
fn every_wrapper_refuses_the_null_handle() {
    let ctx = Context::new(CTX).unwrap();
    assert_eq!(Symbol::new(&ctx, 0).err(), Some(Error::InvalidHandle));
    assert_eq!(Sort::new(&ctx, 0).err(), Some(Error::InvalidHandle));
    assert_eq!(Ast::new(&ctx, 0).err(), Some(Error::InvalidHandle));
    assert_eq!(Function::new(&ctx, 0).err(), Some(Error::InvalidHandle));
    assert_eq!(Pattern::new(&ctx, 0).err(), Some(Error::InvalidHandle));
    assert_eq!(Model::new(&ctx, 0).err(), Some(Error::InvalidHandle));
    assert_eq!(Optimize::new(&ctx, 0).err(), Some(Error::InvalidHandle));
}

#[test]
fn every_wrapper_retains_once_and_releases_once() {
    let ctx = Context::new(CTX).unwrap();

    let (w, r) = Symbol::new(&ctx, 1).unwrap();
    assert_eq!((w.raw(), w.context().raw()), (1, CTX));
    assert_eq!(r, retain(Object::Symbol(1)));
    assert_eq!(w.release(), release(Object::Symbol(1)));

    let (w, r) = Sort::new(&ctx, 2).unwrap();
    assert_eq!((w.raw(), w.context().raw()), (2, CTX));
    assert_eq!(r, retain(Object::Sort(2)));
    assert_eq!(w.release(), release(Object::Sort(2)));

    let (w, r) = Ast::new(&ctx, 3).unwrap();
    assert_eq!((w.raw(), w.context().raw()), (3, CTX));
    assert_eq!(r, retain(Object::Term(3)));
    assert_eq!(w.release(), release(Object::Term(3)));

    let (w, r) = Function::new(&ctx, 4).unwrap();
    assert_eq!((w.raw(), w.context().raw()), (4, CTX));
    assert_eq!(r, retain(Object::Declaration(4)));
    assert_eq!(w.release(), release(Object::Declaration(4)));

    let (w, r) = Pattern::new(&ctx, 5).unwrap();
    assert_eq!((w.raw(), w.context().raw()), (5, CTX));
    assert_eq!(r, retain(Object::Declaration(5)));
    assert_eq!(w.release(), release(Object::Declaration(5)));

    let (w, r) = Model::new(&ctx, 6).unwrap();
    assert_eq!((w.raw(), w.context().raw()), (6, CTX));
    assert_eq!(r, retain(Object::Model(6)));
    assert_eq!(w.release(), release(Object::Model(6)));

    let (w, r) = Optimize::new(&ctx, 7).unwrap();
    assert_eq!((w.raw(), w.context().raw()), (7, CTX));
    assert_eq!(r, retain(Object::Optimize(7)));
    assert_eq!(w.release(), release(Object::Optimize(7)));
}

fn apply(counts: &mut HashMap<Object, i64>, request: &Request) {
    match request.call {
        Call::IncRef(o) => *counts.entry(o).or_insert(0) += 1,
        Call::DecRef(o) => *counts.entry(o).or_insert(0) -= 1,
        _ => panic!("not a counting request: {:?}", request),
    }
}

#[test]
fn wrappers_given_up_in_any_order_restore_every_count() {
    let ctx = Context::new(CTX).unwrap();
    // Five wrappers, two of them of the same engine object.
    let handles = [0x10usize, 0x20, 0x10, 0x30, 0x40];
    let orders: [[usize; 5]; 4] =
        [[0, 1, 2, 3, 4], [4, 3, 2, 1, 0], [2, 0, 4, 1, 3], [1, 4, 0, 3, 2]];
    for order in orders {
        let mut counts: HashMap<Object, i64> = HashMap::new();
        let mut wrappers: Vec<Option<Ast>> = Vec::new();
        for h in handles {
            let (w, r) = Ast::new(&ctx, h).unwrap();
            apply(&mut counts, &r);
            wrappers.push(Some(w));
        }
        assert_eq!(counts.get(&Object::Term(0x10)), Some(&2));
        for k in order {
            let w = wrappers[k].take().unwrap();
            apply(&mut counts, &w.release());
            assert!(counts.values().all(|n| *n >= 0));
        }
        assert!(counts.values().all(|n| *n == 0));
    }
}

#[test]
fn interleaved_making_and_giving_up_restores_every_count() {
    let ctx = Context::new(CTX).unwrap();
    let mut counts: HashMap<Object, i64> = HashMap::new();
    let (f, r) = Function::new(&ctx, 0x10).unwrap();
    apply(&mut counts, &r);
    let (s, r) = Sort::new(&ctx, 0x20).unwrap();
    apply(&mut counts, &r);
    apply(&mut counts, &f.release());
    let (t, r) = Ast::new(&ctx, 0x10).unwrap();
    apply(&mut counts, &r);
    let (m, r) = Model::new(&ctx, 0x30).unwrap();
    apply(&mut counts, &r);
    apply(&mut counts, &m.release());
    apply(&mut counts, &s.release());
    apply(&mut counts, &t.release());
    assert_eq!(counts.len(), 4);
    assert!(counts.values().all(|n| *n == 0));
}
