//! The type normalizer: a foreign type descriptor becomes an indirection
//! shape over a residual type name, or a classified failure.
use vstd::prelude::*;
use crate::ast::{CType, CTypeKind, Scope, ScopeKind};
use crate::diag::{Diagnostic, ParseError, Reason};
use crate::schema::{
    TypeName, TypeNameV, TypeRef, TypeRefV, TypeSemantic, strings_view, views, lemma_views_push,
    lemma_class_args,
};

verus! {

/// The type behind elaborated sugar, once.
pub open spec fn desugared(t: CType) -> CType {
    match t.elaborated {
        Some(b) => *b,
        None => t,
    }
}

pub open spec fn layer(o: Option<Box<CType>>) -> Option<CType> {
    match o {
        Some(b) => Some(desugared(*b)),
        None => None,
    }
}

/// The indirection shape of `t` and the residual type under it; `None` when
/// a layer that the kind of `t` promises is missing.
pub open spec fn peel(t: CType) -> Option<(TypeSemantic, CType)> {
    match t.kind {
        CTypeKind::Pointer | CTypeKind::IncompleteArray => {
            let inner = if t.pointee is Some { layer(t.pointee) } else { layer(t.element) };
            match inner {
                None => None,
                Some(i) => if i.kind is Pointer {
                    match layer(i.pointee) {
                        Some(r) => Some((TypeSemantic::PointerToPointer, r)),
                        None => None,
                    }
                } else {
                    Some((TypeSemantic::Pointer, i))
                },
            }
        },
        CTypeKind::LValueReference => match layer(t.pointee) {
            None => None,
            Some(i) => if i.kind is Pointer {
                match layer(i.pointee) {
                    Some(r) => Some((TypeSemantic::ReferenceToPointer, r)),
                    None => None,
                }
            } else {
                Some((TypeSemantic::Reference, i))
            },
        },
        CTypeKind::ConstantArray => match (t.size, layer(t.element)) {
            (Some(n), Some(i)) => match i.kind {
                CTypeKind::ConstantArray => match (i.size, layer(i.element)) {
                    (Some(m), Some(r)) => Some((TypeSemantic::ArrayOfArray(n, m), r)),
                    _ => None,
                },
                CTypeKind::Pointer => match layer(i.pointee) {
                    Some(r) => Some((TypeSemantic::ArrayOfPointer(n), r)),
                    None => None,
                },
                _ => Some((TypeSemantic::Array(n), i)),
            },
            _ => None,
        },
        _ => Some((TypeSemantic::Value, t)),
    }
}

/// The primitive bucket of a residual kind, if it has one (`void` aside).
pub open spec fn primitive(k: CTypeKind) -> Option<TypeNameV> {
    match k {
        CTypeKind::Bool => Some(TypeNameV::Bool),
        CTypeKind::CharS | CTypeKind::SChar => Some(TypeNameV::Char),
        CTypeKind::CharU | CTypeKind::UChar => Some(TypeNameV::UChar),
        CTypeKind::WChar => Some(TypeNameV::WChar),
        CTypeKind::Short => Some(TypeNameV::Short),
        CTypeKind::UShort => Some(TypeNameV::UShort),
        CTypeKind::Int => Some(TypeNameV::Int),
        CTypeKind::UInt => Some(TypeNameV::UInt),
        CTypeKind::Long => Some(TypeNameV::Long),
        CTypeKind::ULong => Some(TypeNameV::ULong),
        CTypeKind::LongLong => Some(TypeNameV::LongLong),
        CTypeKind::ULongLong => Some(TypeNameV::ULongLong),
        CTypeKind::Float => Some(TypeNameV::Float),
        CTypeKind::Double => Some(TypeNameV::Double),
        _ => None,
    }
}

pub open spec fn scope_label(s: Scope) -> Seq<char> {
    match s.name {
        Some(n) => n@,
        None => "auto"@,
    }
}

/// The names of the scopes `chain[k..]` up to the translation unit, root
/// first, leaving out unnamed scopes that are neither namespaces nor
/// records; `None` when an anonymous namespace is among them.
pub open spec fn outer_names(chain: Seq<Scope>, k: int) -> Option<Seq<Seq<char>>>
    decreases chain.len() - k,
{
    if k < 0 || k >= chain.len() || chain[k].kind is TranslationUnit {
        Some(seq![])
    } else if chain[k].name is None && chain[k].kind is Namespace {
        None
    } else {
        match outer_names(chain, k + 1) {
            None => None,
            Some(p) => if chain[k].name is None && chain[k].kind is Other {
                Some(p)
            } else {
                Some(p.push(scope_label(chain[k])))
            },
        }
    }
}

/// The scoped name path of a declaration, root to leaf.
pub open spec fn scope_path(chain: Seq<Scope>) -> Option<Seq<Seq<char>>> {
    match outer_names(chain, 1) {
        Some(p) => Some(p.push(scope_label(chain[0]))),
        None => None,
    }
}

pub open spec fn kind_diag(t: CType) -> Diagnostic {
    Diagnostic { reason: Reason::UnsupportedTypeKind, subject: Some(t.spelling), context: None }
}

/// All diagnostics of a sequence of outcomes, in order.
pub open spec fn all_diags(ps: Seq<(Result<TypeRefV, ParseError>, Seq<Diagnostic>)>) -> Seq<Diagnostic>
    decreases ps.len(),
{
    if ps.len() == 0 {
        seq![]
    } else {
        all_diags(ps.drop_last()) + ps.last().1
    }
}

/// Index of the first failed outcome, or -1.
pub open spec fn first_failure(ps: Seq<(Result<TypeRefV, ParseError>, Seq<Diagnostic>)>) -> int
    decreases ps.len(),
{
    if ps.len() == 0 {
        -1
    } else {
        let f = first_failure(ps.drop_last());
        if f >= 0 {
            f
        } else if ps.last().0 is Err {
            ps.len() - 1
        } else {
            -1
        }
    }
}

pub open spec fn ok_refs(ps: Seq<(Result<TypeRefV, ParseError>, Seq<Diagnostic>)>) -> Seq<TypeRefV> {
    ps.map_values(|p: (Result<TypeRefV, ParseError>, Seq<Diagnostic>)| p.0->Ok_0)
}

/// The outcome for a record type with name path `path` whose template
/// arguments had the outcomes `ps`.
pub open spec fn record_outcome(
    r: CType,
    sem: TypeSemantic,
    path: Seq<Seq<char>>,
    args: Seq<Option<CType>>,
    ps: Seq<(Result<TypeRefV, ParseError>, Seq<Diagnostic>)>,
) -> (Result<TypeRefV, ParseError>, Seq<Diagnostic>) {
    let f = first_failure(ps);
    if f < 0 {
        (
            Ok(TypeRefV { name: TypeNameV::Class(path, ok_refs(ps)), semantic: sem, is_const: r.is_const }),
            all_diags(ps),
        )
    } else if ps[f].0 == Err::<TypeRefV, ParseError>(ParseError::Unsupported) {
        let subject = match args[f] {
            Some(a) => a.spelling,
            None => r.spelling,
        };
        (
            Err(ParseError::Unsupported),
            all_diags(ps).push(
                Diagnostic { reason: Reason::UnsupportedTemplateArgument, subject: Some(subject), context: None },
            ),
        )
    } else {
        (Err(ParseError::Ignored), all_diags(ps))
    }
}

/// What normalizing `t0` yields, and the diagnostics it reports on the way.
pub open spec fn type_outcome(t0: CType) -> (Result<TypeRefV, ParseError>, Seq<Diagnostic>)
    decreases t0,
{
    let t = desugared(t0);
    match peel(t) {
        None => (Err(ParseError::Unsupported), seq![kind_diag(t)]),
        Some((sem, r)) => {
            let ok = |n: TypeNameV| (Ok(TypeRefV { name: n, semantic: sem, is_const: r.is_const }), Seq::<Diagnostic>::empty());
            match r.kind {
                CTypeKind::Auto | CTypeKind::Unexposed | CTypeKind::BlockPointer | CTypeKind::MemberPointer
                | CTypeKind::FunctionProto | CTypeKind::FunctionNoProto => (
                    Err(ParseError::Ignored),
                    seq![],
                ),
                CTypeKind::Void => if sem is Value {
                    (Err(ParseError::Ignored), seq![])
                } else {
                    ok(TypeNameV::Void)
                },
                CTypeKind::Typedef | CTypeKind::Enum | CTypeKind::Record => match r.declaration {
                    Some(d) if d@.len() > 0 => match scope_path(d@) {
                        None => (Err(ParseError::Ignored), seq![]),
                        Some(path) => if !(r.kind is Record) {
                            ok(TypeNameV::TypeName(path))
                        } else {
                            match r.template_args {
                                None => ok(TypeNameV::Class(path, seq![])),
                                Some(args) => record_outcome(
                                    r,
                                    sem,
                                    path,
                                    args@,
                                    arg_outcomes(args@),
                                ),
                            }
                        },
                    },
                    _ => (Err(ParseError::Unsupported), seq![kind_diag(r)]),
                },
                _ => match primitive(r.kind) {
                    Some(n) => ok(n),
                    None => (Err(ParseError::Unsupported), seq![kind_diag(r)]),
                },
            }
        },
    }
}

/// The outcomes of normalizing each template argument; one that is not a
/// type is unsupported.
pub open spec fn arg_outcomes(args: Seq<Option<CType>>) -> Seq<(Result<TypeRefV, ParseError>, Seq<Diagnostic>)>
    decreases args,
{
    Seq::new(
        args.len(),
        |i: int|
            if 0 <= i < args.len() {
                match args[i] {
                    Some(a) => type_outcome(a),
                    None => (Err(ParseError::Unsupported), seq![]),
                }
            } else {
                arbitrary()
            },
    )
}

pub open spec fn result_view(r: Result<TypeRef, ParseError>) -> Result<TypeRefV, ParseError> {
    match r {
        Ok(t) => Ok(t@),
        Err(e) => Err(e),
    }
}

fn desugar(t: &CType) -> (r: &CType)
    ensures
        *r == desugared(*t),
{
    match &t.elaborated {
        Some(b) => &**b,
        None => t,
    }
}

fn layer_of(o: &Option<Box<CType>>) -> (r: Option<&CType>)
    ensures
        match r {
            Some(x) => layer(*o) == Some(*x),
            None => layer(*o) is None,
        },
{
    match o {
        Some(b) => Some(desugar(&**b)),
        None => None,
    }
}

fn peel_layers(t: &CType) -> (r: Option<(TypeSemantic, &CType)>)
    ensures
        match r {
            Some((s, x)) => peel(*t) == Some((s, *x)),
            None => peel(*t) is None,
        },
{
    match t.kind {
        CTypeKind::Pointer | CTypeKind::IncompleteArray => {
            let inner = if t.pointee.is_some() { layer_of(&t.pointee) } else { layer_of(&t.element) };
            match inner {
                None => None,
                Some(i) => if i.kind == CTypeKind::Pointer {
                    match layer_of(&i.pointee) {
                        Some(r) => Some((TypeSemantic::PointerToPointer, r)),
                        None => None,
                    }
                } else {
                    Some((TypeSemantic::Pointer, i))
                },
            }
        },
        CTypeKind::LValueReference => match layer_of(&t.pointee) {
            None => None,
            Some(i) => if i.kind == CTypeKind::Pointer {
                match layer_of(&i.pointee) {
                    Some(r) => Some((TypeSemantic::ReferenceToPointer, r)),
                    None => None,
                }
            } else {
                Some((TypeSemantic::Reference, i))
            },
        },
        CTypeKind::ConstantArray => match (t.size, layer_of(&t.element)) {
            (Some(n), Some(i)) => match i.kind {
                CTypeKind::ConstantArray => match (i.size, layer_of(&i.element)) {
                    (Some(m), Some(r)) => Some((TypeSemantic::ArrayOfArray(n, m), r)),
                    _ => None,
                },
                CTypeKind::Pointer => match layer_of(&i.pointee) {
                    Some(r) => Some((TypeSemantic::ArrayOfPointer(n), r)),
                    None => None,
                },
                _ => Some((TypeSemantic::Array(n), i)),
            },
            _ => None,
        },
        _ => Some((TypeSemantic::Value, t)),
    }
}

fn primitive_name(k: CTypeKind) -> (r: Option<TypeName>)
    ensures
        match r {
            Some(n) => primitive(k) == Some(n@),
            None => primitive(k) is None,
        },
{
    match k {
        CTypeKind::Bool => Some(TypeName::Bool),
        CTypeKind::CharS | CTypeKind::SChar => Some(TypeName::Char),
        CTypeKind::CharU | CTypeKind::UChar => Some(TypeName::UChar),
        CTypeKind::WChar => Some(TypeName::WChar),
        CTypeKind::Short => Some(TypeName::Short),
        CTypeKind::UShort => Some(TypeName::UShort),
        CTypeKind::Int => Some(TypeName::Int),
        CTypeKind::UInt => Some(TypeName::UInt),
        CTypeKind::Long => Some(TypeName::Long),
        CTypeKind::ULong => Some(TypeName::ULong),
        CTypeKind::LongLong => Some(TypeName::LongLong),
        CTypeKind::ULongLong => Some(TypeName::ULongLong),
        CTypeKind::Float => Some(TypeName::Float),
        CTypeKind::Double => Some(TypeName::Double),
        _ => None,
    }
}

fn label(s: &Scope) -> (r: String)
    ensures
        r@ == scope_label(*s),
{
    match &s.name {
        Some(n) => n.clone(),
        None => "auto".to_owned(),
    }
}

fn outer_path(chain: &Vec<Scope>, k: usize) -> (r: Option<Vec<String>>)
    ensures
        match r {
            Some(v) => outer_names(chain@, k as int) == Some(strings_view(v@)),
            None => outer_names(chain@, k as int) is None,
        },
    decreases chain@.len() - k,
{
    if k >= chain.len() || chain[k].kind == ScopeKind::TranslationUnit {
        return Some(Vec::new());
    }
    if chain[k].name.is_none() && chain[k].kind == ScopeKind::Namespace {
        return None;
    }
    match outer_path(chain, k + 1) {
        None => None,
        Some(mut p) => {
            if chain[k].name.is_none() && chain[k].kind == ScopeKind::Other {
                Some(p)
            } else {
                let l = label(&chain[k]);
                let ghost p0 = p@;
                p.push(l);
                proof {
                    assert(strings_view(p@) =~= strings_view(p0).push(l@));
                }
                Some(p)
            }
        },
    }
}

/// The scoped name path of the declaration whose chain of scopes is given.
pub fn scope_names(chain: &Vec<Scope>) -> (r: Option<Vec<String>>)
    requires
        chain@.len() > 0,
    ensures
        match r {
            Some(v) => scope_path(chain@) == Some(strings_view(v@)),
            None => scope_path(chain@) is None,
        },
{
    match outer_path(chain, 1) {
        None => None,
        Some(mut p) => {
            let l = label(&chain[0]);
            let ghost p0 = p@;
            p.push(l);
            proof {
                assert(strings_view(p@) =~= strings_view(p0).push(l@));
            }
            Some(p)
        },
    }
}

fn kind_diagnostic(t: &CType) -> (d: Diagnostic)
    ensures
        d == kind_diag(*t),
{
    Diagnostic { reason: Reason::UnsupportedTypeKind, subject: Some(t.spelling.clone()), context: None }
}

proof fn lemma_outcomes_step(ps: Seq<(Result<TypeRefV, ParseError>, Seq<Diagnostic>)>, i: int)
    requires
        0 <= i < ps.len(),
    ensures
        ps.take(i + 1).drop_last() == ps.take(i),
        ps.take(i + 1).last() == ps[i],
{
    assert(ps.take(i + 1).drop_last() =~= ps.take(i));
}

proof fn lemma_residual_inside(t0: CType)
    ensures
        match peel(desugared(t0)) {
            Some((_, r)) => decreases_to!(t0 => r.template_args),
            None => true,
        },
{
}

/// Normalizes a foreign type, reporting unsupported constructs in `diags`.
pub fn parse_type(t0: &CType, diags: &mut Vec<Diagnostic>) -> (r: Result<TypeRef, ParseError>)
    ensures
        result_view(r) == type_outcome(*t0).0,
        final(diags)@ == old(diags)@ + type_outcome(*t0).1,
    decreases t0,
{
    let t = desugar(t0);
    let (sem, r) = match peel_layers(t) {
        None => {
            diags.push(kind_diagnostic(t));
            return Err(ParseError::Unsupported);
        },
        Some(x) => x,
    };
    let name = match r.kind {
        CTypeKind::Auto | CTypeKind::Unexposed | CTypeKind::BlockPointer | CTypeKind::MemberPointer
                | CTypeKind::FunctionProto | CTypeKind::FunctionNoProto => {
            proof { assert(old(diags)@ + seq![] =~= old(diags)@); }
            return Err(ParseError::Ignored);
        },
        CTypeKind::Void => {
            if sem == TypeSemantic::Value {
                proof { assert(old(diags)@ + seq![] =~= old(diags)@); }
                return Err(ParseError::Ignored);
            }
            TypeName::Void
        },
        CTypeKind::Typedef | CTypeKind::Enum | CTypeKind::Record => {
            let path = match &r.declaration {
                Some(d) if d.len() > 0 => match scope_names(d) {
                    None => {
                        proof { assert(old(diags)@ + seq![] =~= old(diags)@); }
                        return Err(ParseError::Ignored);
                    },
                    Some(p) => p,
                },
                _ => {
                    diags.push(kind_diagnostic(r));
                    return Err(ParseError::Unsupported);
                },
            };
            if r.kind != CTypeKind::Record {
                TypeName::TypeName(path)
            } else {
                match &r.template_args {
                    None => {
                        let empty: Vec<TypeRef> = Vec::new();
                        proof {
                            lemma_class_args(path, empty);
                            assert(views(empty@) =~= seq![]);
                        }
                        let n = TypeName::Class(path, empty);
                        n
                    },
                    Some(args) => {
                        let ghost ps = arg_outcomes(args@);
                        proof { lemma_residual_inside(*t0); }
                        let ghost d0 = diags@;
                        let mut out: Vec<TypeRef> = Vec::new();
                        let mut fail: Option<(usize, ParseError)> = None;
                        let n = args.len();
                        for i in 0..n
                            invariant
                                n == args@.len(),
                                ps == arg_outcomes(args@),
                                ps.len() == n,
                                decreases_to!(*t0 => r.template_args),
                                r.template_args == Some(*args),
                                diags@ == d0 + all_diags(ps.take(i as int)),
                                match fail {
                                    None => first_failure(ps.take(i as int)) == -1
                                        && views(out@) == ok_refs(ps.take(i as int)),
                                    Some((f, e)) => first_failure(ps.take(i as int)) == f && f < i
                                        && ps[f as int].0 == Err::<TypeRefV, ParseError>(e),
                                },
                        {
                            proof { lemma_outcomes_step(ps, i as int); }
                            let ghost dm = diags@;
                            let res = match &args[i] {
                                Some(a) => {
                                    proof {
                                        assert(decreases_to!(r.template_args => r.template_args->Some_0));
                                        assert(decreases_to!(*args => args@[i as int]));
                                        assert(decreases_to!(args@[i as int] => args@[i as int]->Some_0));
                                    }
                                    parse_type(a, diags)
                                },
                                None => Err(ParseError::Unsupported),
                            };
                            proof {
                                assert(result_view(res) == ps[i as int].0);
                                assert(diags@ == dm + ps[i as int].1);
                                assert(d0 + all_diags(ps.take(i + 1)) =~= dm + ps[i as int].1);
                            }
                            match res {
                                Ok(x) => {
                                    if fail.is_none() {
                                        proof {
                                            lemma_views_push(out@, x);
                                            assert(ok_refs(ps.take(i + 1)) =~= ok_refs(ps.take(i as int)).push(x@));
                                        }
                                        out.push(x);
                                    }
                                },
                                Err(e) => {
                                    if fail.is_none() {
                                        fail = Some((i, e));
                                    }
                                },
                            }
                        }
                        proof {
                            assert(ps.take(n as int) =~= ps);
                        }
                        match fail {
                            None => {
                                proof { lemma_class_args(path, out); }
                                let n = TypeName::Class(path, out);
                                n
                            },
                            Some((f, e)) => {
                                if e == ParseError::Unsupported {
                                    let subject = match &args[f] {
                                        Some(a) => a.spelling.clone(),
                                        None => r.spelling.clone(),
                                    };
                                    diags.push(
                                        Diagnostic {
                                            reason: Reason::UnsupportedTemplateArgument,
                                            subject: Some(subject),
                                            context: None,
                                        },
                                    );
                                }
                                return Err(e);
                            },
                        }
                    },
                }
            }
        },
        _ => match primitive_name(r.kind) {
            Some(n) => n,
            None => {
                diags.push(kind_diagnostic(r));
                return Err(ParseError::Unsupported);
            },
        },
    };
    proof { assert(old(diags)@ + seq![] =~= old(diags)@); }
    Ok(TypeRef { name, semantic: sem, is_const: r.is_const })
}

} // verus!
