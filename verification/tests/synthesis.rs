use std::collections::HashMap;
use z3::{AxiomStep, Call, Context, Error, Function, Object, Request};

const CTX: usize = 0x1000;
const FUNC: usize = 0x2000;

/// An engine that hands out handles in sequence, counts references, and
/// writes down every request. It answers the call at position `null_at`,
/// if any, with the null handle.
struct Engine {
    next: usize,
    counts: HashMap<Object, i64>,
    log: Vec<Request>,
    null_at: Option<usize>,
}

impl Engine {
    fn new(null_at: Option<usize>) -> Engine {
        Engine { next: 0x100, counts: HashMap::new(), log: Vec::new(), null_at }
    }

    fn perform(&mut self, request: Request) -> usize {
        let position = self.log.len();
        self.log.push(request.clone());
        match request.call {
            Call::IncRef(object) => {
                *self.counts.entry(object).or_insert(0) += 1;
                0xdead
            }
            Call::DecRef(object) => {
                *self.counts.entry(object).or_insert(0) -= 1;
                0xdead
            }
            _ if self.null_at == Some(position) => 0,
            _ => {
                self.next += 1;
                self.next
            }
        }
    }

    /// Holds the whole conversation for the argument at `index` of `f`,
    /// answering the opening question with `arity`.
    fn synthesize(&mut self, f: &Function, arity: u32, index: usize) -> Result<usize, Error> {
        let (start, question) = f.injective_axiom(index);
        assert_eq!(question, Request { ctx: CTX, call: Call::GetDomainSize { func: FUNC } });
        self.drive(start.resume(arity))
    }

    fn drive(&mut self, first: AxiomStep) -> Result<usize, Error> {
        let mut step = first;
        loop {
            match step {
                AxiomStep::Call(synthesis, request) => {
                    let reply = self.perform(request);
                    step = synthesis.resume(reply);
                }
                AxiomStep::Done(result) => return result.map(|formula| formula.raw()),
            }
        }
    }

    fn outstanding(&self) -> Vec<(Object, i64)> {
        let mut left: Vec<(Object, i64)> =
            self.counts.iter().filter(|(_, n)| **n != 0).map(|(o, n)| (*o, *n)).collect();
        left.sort_by_key(|(o, _)| format!("{:?}", o));
        left
    }
}

fn call(call: Call) -> Request {
    Request { ctx: CTX, call }
}

fn declaration(ctx: &Context) -> Function<'_> {
    Function::new(ctx, FUNC).unwrap().0
}

#[test]
fn index_beyond_the_domain_is_an_arity_error() {
    let ctx = Context::new(CTX).unwrap();
    let f = declaration(&ctx);
    for (arity, index) in [(0u32, 0usize), (1, 1), (1, 2), (2, 2), (3, 7), (5, usize::MAX)] {
        let (start, question) = f.injective_axiom(index);
        assert_eq!(question, Request { ctx: CTX, call: Call::GetDomainSize { func: FUNC } });
        match start.resume(arity) {
            AxiomStep::Done(Err(e)) => assert_eq!(e, Error::Arity { arity, index }),
            _ => panic!("arity {} index {} was not refused", arity, index),
        }
    }
}

#[test]
fn refused_index_makes_nothing_in_the_engine() {
    let ctx = Context::new(CTX).unwrap();
    let f = declaration(&ctx);
    let mut engine = Engine::new(None);
    assert_eq!(engine.synthesize(&f, 2, 2), Err(Error::Arity { arity: 2, index: 2 }));
    assert!(engine.log.is_empty());
    assert!(engine.counts.is_empty());
}

#[test]
fn unary_declaration_conversation() {
    let ctx = Context::new(CTX).unwrap();
    let f = declaration(&ctx);
    let mut engine = Engine::new(None);
    let formula = engine.synthesize(&f, 1, 0).unwrap();
    // Handles in the order the engine gave them.
    let (range, inv_range, inv) = (0x101, 0x102, 0x103);
    let (sort0, name0, var0) = (0x104, 0x105, 0x106);
    let (fxs, inv_fxs, eq, pattern, quantifier) = (0x107, 0x108, 0x109, 0x10a, 0x10b);
    assert_eq!(formula, quantifier);
    let expected = vec![
        call(Call::GetRange { func: FUNC }),
        call(Call::GetDomain { func: FUNC, index: 0 }),
        call(Call::MkFreshFuncDecl {
            prefix: "inv".to_string(),
            domain: vec![range],
            range: inv_range,
        }),
        call(Call::IncRef(Object::Declaration(inv))),
        call(Call::GetDomain { func: FUNC, index: 0 }),
        call(Call::MkIntSymbol { index: 0 }),
        call(Call::MkBound { index: 0, sort: sort0 }),
        call(Call::IncRef(Object::Term(var0))),
        call(Call::MkApp { func: FUNC, args: vec![var0] }),
        call(Call::IncRef(Object::Term(fxs))),
        call(Call::MkApp { func: inv, args: vec![fxs] }),
        call(Call::IncRef(Object::Term(inv_fxs))),
        call(Call::MkEq { left: inv_fxs, right: var0 }),
        call(Call::IncRef(Object::Term(eq))),
        call(Call::MkPattern { terms: vec![fxs] }),
        call(Call::MkForall {
            weight: 0,
            patterns: vec![pattern],
            sorts: vec![sort0],
            names: vec![name0],
            body: eq,
        }),
        call(Call::IncRef(Object::Term(quantifier))),
        call(Call::DecRef(Object::Term(inv_fxs))),
        call(Call::DecRef(Object::Term(fxs))),
        call(Call::DecRef(Object::Term(var0))),
        call(Call::DecRef(Object::Declaration(inv))),
        call(Call::DecRef(Object::Term(eq))),
    ];
    assert_eq!(engine.log, expected);
    assert_eq!(engine.outstanding(), vec![(Object::Term(quantifier), 1)]);
}

#[test]
fn ternary_declaration_over_its_middle_argument() {
    let ctx = Context::new(CTX).unwrap();
    let f = declaration(&ctx);
    let mut engine = Engine::new(None);
    let formula = engine.synthesize(&f, 3, 1).unwrap();
    let log = &engine.log;
    assert_eq!(log.len(), 4 + 4 * 3 + 9 + 3 + 4);
    assert_eq!(log[1], call(Call::GetDomain { func: FUNC, index: 1 }));
    // Three binders, each: sort, name, variable, retain.
    let sorts = vec![0x104, 0x107, 0x10a];
    let names = vec![0x105, 0x108, 0x10b];
    let vars = vec![0x106, 0x109, 0x10c];
    for k in 0..3usize {
        assert_eq!(log[4 + 4 * k], call(Call::GetDomain { func: FUNC, index: k as u32 }));
        assert_eq!(log[5 + 4 * k], call(Call::MkIntSymbol { index: k as u32 }));
        assert_eq!(log[6 + 4 * k], call(Call::MkBound { index: k as u32, sort: sorts[k] }));
        assert_eq!(log[7 + 4 * k], call(Call::IncRef(Object::Term(vars[k]))));
    }
    let (fxs, inv_fxs, eq, pattern, quantifier) = (0x10d, 0x10e, 0x10f, 0x110, 0x111);
    assert_eq!(log[16], call(Call::MkApp { func: FUNC, args: vars.clone() }));
    assert_eq!(log[18], call(Call::MkApp { func: 0x103, args: vec![fxs] }));
    assert_eq!(log[20], call(Call::MkEq { left: inv_fxs, right: vars[1] }));
    assert_eq!(log[22], call(Call::MkPattern { terms: vec![fxs] }));
    assert_eq!(
        log[23],
        call(Call::MkForall { weight: 0, patterns: vec![pattern], sorts, names, body: eq })
    );
    assert_eq!(log[24], call(Call::IncRef(Object::Term(quantifier))));
    assert_eq!(formula, quantifier);
    // Nothing is released before the quantifier is retained.
    assert!(log[..25].iter().all(|r| !matches!(r.call, Call::DecRef(_))));
    assert!(log[25..].iter().all(|r| matches!(r.call, Call::DecRef(_))));
    assert_eq!(
        log[25..].to_vec(),
        vec![
            call(Call::DecRef(Object::Term(inv_fxs))),
            call(Call::DecRef(Object::Term(fxs))),
            call(Call::DecRef(Object::Term(vars[0]))),
            call(Call::DecRef(Object::Term(vars[1]))),
            call(Call::DecRef(Object::Term(vars[2]))),
            call(Call::DecRef(Object::Declaration(0x103))),
            call(Call::DecRef(Object::Term(eq))),
        ]
    );
    assert_eq!(engine.outstanding(), vec![(Object::Term(quantifier), 1)]);
}

#[test]
fn every_request_targets_the_declaration_s_environment() {
    let ctx = Context::new(CTX).unwrap();
    let f = declaration(&ctx);
    let mut engine = Engine::new(None);
    engine.synthesize(&f, 4, 3).unwrap();
    assert!(engine.log.iter().all(|r| r.ctx == CTX));
}

#[test]
fn only_the_formula_stays_retained_for_any_arity_and_index() {
    let ctx = Context::new(CTX).unwrap();
    let f = declaration(&ctx);
    for arity in 1..6u32 {
        for index in 0..arity as usize {
            let mut engine = Engine::new(None);
            let formula = engine.synthesize(&f, arity, index).unwrap();
            assert_eq!(engine.outstanding(), vec![(Object::Term(formula), 1)]);
            assert_eq!(engine.log.len(), 13 + 4 * arity as usize + arity as usize + 4);
        }
    }
}

#[test]
fn null_handle_ends_the_synthesis_and_releases_what_was_retained() {
    let ctx = Context::new(CTX).unwrap();
    let f = declaration(&ctx);
    let arity = 2u32;
    let length = 13 + 4 * arity as usize;
    let mut failures = 0;
    for position in 0..length {
        let mut probe = Engine::new(None);
        probe.synthesize(&f, arity, 1).unwrap();
        let counts = matches!(probe.log[position].call, Call::IncRef(_) | Call::DecRef(_));
        let mut engine = Engine::new(Some(position));
        let result = engine.synthesize(&f, arity, 1);
        if counts {
            assert!(result.is_ok());
            continue;
        }
        failures += 1;
        assert_eq!(result, Err(Error::InvalidHandle));
        assert_eq!(engine.outstanding(), vec![]);
        assert!(engine.log[..position].iter().all(|r| !matches!(r.call, Call::DecRef(_))));
        assert!(engine.log[position + 1..].iter().all(|r| matches!(r.call, Call::DecRef(_))));
        let retained =
            engine.log[..position].iter().filter(|r| matches!(r.call, Call::IncRef(_))).count();
        assert_eq!(engine.log.len(), position + 1 + retained);
    }
    assert_eq!(failures, 3 + 3 * arity as usize + 5);
}

#[test]
fn null_range_releases_nothing() {
    let ctx = Context::new(CTX).unwrap();
    let f = declaration(&ctx);
    let mut engine = Engine::new(Some(0));
    assert_eq!(engine.synthesize(&f, 1, 0), Err(Error::InvalidHandle));
    assert_eq!(engine.log, vec![call(Call::GetRange { func: FUNC })]);
}

#[test]
fn null_bound_variable_releases_the_inverse_and_earlier_variables() {
    let ctx = Context::new(CTX).unwrap();
    let f = declaration(&ctx);
    // Position 10 makes the bound variable of the second argument.
    let mut engine = Engine::new(Some(10));
    assert_eq!(engine.synthesize(&f, 2, 0), Err(Error::InvalidHandle));
    assert_eq!(engine.log.len(), 13);
    assert_eq!(engine.log[10], call(Call::MkBound { index: 1, sort: 0x107 }));
    assert_eq!(engine.log[11], call(Call::DecRef(Object::Term(0x106))));
    assert_eq!(engine.log[12], call(Call::DecRef(Object::Declaration(0x103))));
}

#[test]
fn null_quantifier_releases_every_intermediate() {
    let ctx = Context::new(CTX).unwrap();
    let f = declaration(&ctx);
    let mut engine = Engine::new(Some(15));
    assert_eq!(engine.synthesize(&f, 1, 0), Err(Error::InvalidHandle));
    assert!(matches!(engine.log[15].call, Call::MkForall { .. }));
    assert_eq!(
        engine.log[16..].to_vec(),
        vec![
            call(Call::DecRef(Object::Term(0x108))),
            call(Call::DecRef(Object::Term(0x107))),
            call(Call::DecRef(Object::Term(0x106))),
            call(Call::DecRef(Object::Declaration(0x103))),
            call(Call::DecRef(Object::Term(0x109))),
        ]
    );
    assert_eq!(engine.outstanding(), vec![]);
}

#[test]
fn answers_to_counting_calls_are_ignored() {
    let ctx = Context::new(CTX).unwrap();
    let f = declaration(&ctx);
    // The engine here answers every counting call with the null handle.
    let mut step = f.injective_axiom(0).0.resume(1);
    let mut next = 0x500;
    let mut asked = 0;
    let formula = loop {
        match step {
            AxiomStep::Call(synthesis, request) => {
                asked += 1;
                let reply = match request.call {
                    Call::IncRef(_) | Call::DecRef(_) => 0,
                    _ => {
                        next += 1;
                        next
                    }
                };
                step = synthesis.resume(reply);
            }
            AxiomStep::Done(result) => break result,
        }
    };
    assert_eq!(asked, 22);
    assert_eq!(formula.unwrap().raw(), 0x50b);
}

#[test]
fn engine_may_answer_one_handle_twice() {
    let ctx = Context::new(CTX).unwrap();
    let f = declaration(&ctx);
    // An engine that shares structure answers with the same handle for
    // every term: each is still retained and released once per answer.
    let mut counts: HashMap<Object, i64> = HashMap::new();
    let mut step = f.injective_axiom(0).0.resume(2);
    let formula = loop {
        match step {
            AxiomStep::Call(synthesis, request) => {
                match request.call {
                    Call::IncRef(o) => *counts.entry(o).or_insert(0) += 1,
                    Call::DecRef(o) => *counts.entry(o).or_insert(0) -= 1,
                    _ => {}
                }
                step = synthesis.resume(0x77);
            }
            AxiomStep::Done(result) => break result.unwrap(),
        }
    };
    assert_eq!(formula.raw(), 0x77);
    assert_eq!(counts.get(&Object::Term(0x77)), Some(&1));
    assert_eq!(counts.get(&Object::Declaration(0x77)), Some(&0));
}

#[test]
fn declaration_of_many_arguments() {
    let ctx = Context::new(CTX).unwrap();
    let f = declaration(&ctx);
    let arity = 300u32;
    let mut engine = Engine::new(None);
    let formula = engine.synthesize(&f, arity, 299).unwrap();
    assert_eq!(engine.log.len(), 13 + 4 * 300 + 300 + 4);
    assert_eq!(engine.outstanding(), vec![(Object::Term(formula), 1)]);
    match &engine.log[4 + 4 * 300 + 7].call {
        Call::MkForall { sorts, names, .. } => {
            assert_eq!(sorts.len(), 300);
            assert_eq!(names.len(), 300);
        }
        other => panic!("expected the quantifier, found {:?}", other),
    }
    match &engine.log[4 + 4 * 300 + 4].call {
        Call::MkEq { right, .. } => {
            assert_eq!(engine.log[4 + 4 * 299 + 3], call(Call::IncRef(Object::Term(*right))));
        }
        other => panic!("expected the equality, found {:?}", other),
    }
}
