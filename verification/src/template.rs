//! The template substitution language: strings holding `${name}` placeholders
//! are parsed into literal and placeholder parts, and each placeholder is
//! replaced by a caller-supplied value.

use vstd::prelude::*;

use crate::chars::{
    append_chars, chars_to_string, find_from, find_sub, lemma_find_from_spec, str_to_chars,
    subrange_chars,
};

verus! {

/// The two characters that open a placeholder.
pub open spec fn open_marker() -> Seq<char> {
    seq!['$', '{']
}

/// The character that closes a placeholder.
pub open spec fn close_marker() -> Seq<char> {
    seq!['}']
}

fn open_marker_chars() -> (r: Vec<char>)
    ensures
        r@ == open_marker(),
{
    let mut v: Vec<char> = Vec::new();
    v.push('$');
    v.push('{');
    proof {
        assert(v@ =~= open_marker());
    }
    v
}

fn close_marker_chars() -> (r: Vec<char>)
    ensures
        r@ == close_marker(),
{
    let mut v: Vec<char> = Vec::new();
    v.push('}');
    proof {
        assert(v@ =~= close_marker());
    }
    v
}

/// A parsed piece of a template: literal text, or the name between `${` and
/// `}`.
pub enum TemplatePart {
    Literal(Vec<char>),
    Placeholder(Vec<char>),
}

/// Specification-level counterpart of `TemplatePart`.
pub enum SegView {
    Lit(Seq<char>),
    Ph(Seq<char>),
}

impl View for TemplatePart {
    type V = SegView;

    open spec fn view(&self) -> SegView {
        match self {
            TemplatePart::Literal(l) => SegView::Lit(l@),
            TemplatePart::Placeholder(n) => SegView::Ph(n@),
        }
    }
}

pub open spec fn parts_view(ps: Seq<TemplatePart>) -> Seq<SegView> {
    ps.map(|i: int, p: TemplatePart| p@)
}

/// How a template string decomposes: scanning finds the first `${`, then the
/// first following `}`; the name between them is a placeholder; the rest is
/// parsed the same way. `None` means an unterminated `${`.
pub open spec fn spec_parse(s: Seq<char>) -> Option<Seq<SegView>>
    decreases s.len(),
    via spec_parse_decreases
{
    match find_from(s, open_marker(), 0) {
        None => Some(seq![SegView::Lit(s)]),
        Some(start) => {
            let after = s.subrange(start + 2, s.len() as int);
            match find_from(after, close_marker(), 0) {
                None => None,
                Some(end) => {
                    let name = after.subrange(0, end);
                    let rest = after.subrange(end + 1, after.len() as int);
                    match spec_parse(rest) {
                        None => None,
                        Some(parts) => Some(
                            seq![SegView::Lit(s.subrange(0, start)), SegView::Ph(name)] + parts,
                        ),
                    }
                },
            }
        },
    }
}

#[via_fn]
proof fn spec_parse_decreases(s: Seq<char>) {
    lemma_find_from_spec(s, open_marker(), 0);
    match find_from(s, open_marker(), 0) {
        None => {},
        Some(start) => {
            let after = s.subrange(start + 2, s.len() as int);
            lemma_find_from_spec(after, close_marker(), 0);
        },
    }
}

/// The concatenation of the parts, with the placeholder at each position `i`
/// replaced by `reps[i]` (entries of `reps` at literal positions are unused).
pub open spec fn fill_all(parts: Seq<SegView>, reps: Seq<Seq<char>>) -> Seq<char>
    decreases parts.len(),
{
    if parts.len() == 0 {
        Seq::empty()
    } else {
        (match parts[0] {
            SegView::Lit(l) => l,
            SegView::Ph(_) => reps[0],
        }) + fill_all(parts.drop_first(), reps.drop_first())
    }
}

proof fn lemma_fill_all_snoc(parts: Seq<SegView>, reps: Seq<Seq<char>>, p: SegView, r: Seq<char>)
    requires
        parts.len() == reps.len(),
    ensures
        fill_all(parts.push(p), reps.push(r)) == fill_all(parts, reps) + (match p {
            SegView::Lit(l) => l,
            SegView::Ph(_) => r,
        }),
    decreases parts.len(),
{
    if parts.len() == 0 {
        assert(parts.push(p).drop_first() =~= parts);
        assert(reps.push(r).drop_first() =~= reps);
        assert(fill_all(parts, reps) + (match p {
            SegView::Lit(l) => l,
            SegView::Ph(_) => r,
        }) =~= (match p {
            SegView::Lit(l) => l,
            SegView::Ph(_) => r,
        }));
        assert(fill_all(parts.push(p), reps.push(r)) =~= (match parts.push(p)[0] {
            SegView::Lit(l) => l,
            SegView::Ph(_) => reps.push(r)[0],
        }) + fill_all(Seq::<SegView>::empty(), Seq::<Seq<char>>::empty()));
    } else {
        assert(parts.push(p).drop_first() =~= parts.drop_first().push(p));
        assert(reps.push(r).drop_first() =~= reps.drop_first().push(r));
        lemma_fill_all_snoc(parts.drop_first(), reps.drop_first(), p, r);
        assert((parts[0]->Lit_0 + fill_all(parts.drop_first(), reps.drop_first())) + (match p {
            SegView::Lit(l) => l,
            SegView::Ph(_) => r,
        }) =~= parts[0]->Lit_0 + (fill_all(parts.drop_first(), reps.drop_first()) + (match p {
            SegView::Lit(l) => l,
            SegView::Ph(_) => r,
        })));
        assert((reps[0] + fill_all(parts.drop_first(), reps.drop_first())) + (match p {
            SegView::Lit(l) => l,
            SegView::Ph(_) => r,
        }) =~= reps[0] + (fill_all(parts.drop_first(), reps.drop_first()) + (match p {
            SegView::Lit(l) => l,
            SegView::Ph(_) => r,
        })));
    }
}

/// Splits a template string into its parts; `None` means an unterminated
/// `${`.
pub fn parse_parts(s: &Vec<char>) -> (r: Option<Vec<TemplatePart>>)
    ensures
        match r {
            Some(ps) => spec_parse(s@) == Some(parts_view(ps@)),
            None => spec_parse(s@) is None,
        },
    decreases s@.len(),
{
    let om = open_marker_chars();
    match find_sub(s, &om, 0) {
        None => {
            let mut ps: Vec<TemplatePart> = Vec::new();
            ps.push(TemplatePart::Literal(subrange_chars(s, 0, s.len())));
            proof {
                assert(s@.subrange(0, s@.len() as int) =~= s@);
                assert(parts_view(ps@) =~= seq![SegView::Lit(s@)]);
            }
            Some(ps)
        },
        Some(start) => {
            let slen = s.len();
            proof {
                lemma_find_from_spec(s@, open_marker(), 0);
                assert(start + 2 <= slen);
            }
            let after = subrange_chars(s, start + 2, slen);
            let cm = close_marker_chars();
            match find_sub(&after, &cm, 0) {
                None => None,
                Some(end) => {
                    proof {
                        lemma_find_from_spec(after@, close_marker(), 0);
                    }
                    let name = subrange_chars(&after, 0, end);
                    let rest = subrange_chars(&after, end + 1, after.len());
                    match parse_parts(&rest) {
                        None => None,
                        Some(mut parts) => {
                            let lit = subrange_chars(s, 0, start);
                            let mut out: Vec<TemplatePart> = Vec::new();
                            out.push(TemplatePart::Literal(lit));
                            out.push(TemplatePart::Placeholder(name));
                            let ghost head = parts_view(out@);
                            let ghost tail = parts_view(parts@);
                            out.append(&mut parts);
                            proof {
                                assert(head =~= seq![
                                    SegView::Lit(s@.subrange(0, start as int)),
                                    SegView::Ph(name@),
                                ]);
                                assert(parts_view(out@) =~= head + tail);
                            }
                            Some(out)
                        },
                    }
                },
            }
        },
    }
}

/// An error from template substitution: an unterminated `${`, or a
/// placeholder whose replacement failed with `cause`.
#[derive(Debug, PartialEq, Eq)]
pub enum TemplateError<E> {
    Unclosed { template: String },
    Replace { name: String, template: String, cause: E },
}

impl<E> TemplateError<E> {
    /// The user-facing description of this error.
    pub open spec fn message_view(&self) -> Seq<char> {
        match self {
            TemplateError::Unclosed { template } => "Unclosed template string in template '"@
                + template@ + "', you may be missing a closing '}'"@,
            TemplateError::Replace { name, template, .. } => "Could not replace template name '"@
                + name@ + "' in template string "@ + template@,
        }
    }

    pub fn message(&self) -> (r: String)
        ensures
            r@ == self.message_view(),
    {
        let mut out: Vec<char> = Vec::new();
        match self {
            TemplateError::Unclosed { template } => {
                let a = str_to_chars("Unclosed template string in template '");
                append_chars(&mut out, &a);
                let t = str_to_chars(template.as_str());
                append_chars(&mut out, &t);
                let b = str_to_chars("', you may be missing a closing '}'");
                append_chars(&mut out, &b);
            },
            TemplateError::Replace { name, template, .. } => {
                let a = str_to_chars("Could not replace template name '");
                append_chars(&mut out, &a);
                let n = str_to_chars(name.as_str());
                append_chars(&mut out, &n);
                let b = str_to_chars("' in template string ");
                append_chars(&mut out, &b);
                let t = str_to_chars(template.as_str());
                append_chars(&mut out, &t);
            },
        }
        chars_to_string(&out)
    }

    /// The underlying replacement failure, where there is one.
    pub fn cause(&self) -> (r: Option<&E>)
        ensures
            match self {
                TemplateError::Replace { cause, .. } => r == Some(cause),
                TemplateError::Unclosed { .. } => r is None,
            },
    {
        match self {
            TemplateError::Replace { cause, .. } => Some(cause),
            TemplateError::Unclosed { .. } => None,
        }
    }
}

/// `out` is the concatenation of the parts with placeholder `i` replaced by
/// `reps[i]`; `names[i]` and `vals[i]` witness that the replacer, applied to
/// that placeholder's name, can return that replacement.
pub open spec fn replaced_parts_with<E, F: Fn(String) -> Result<String, E>>(
    replacer: F,
    parts: Seq<SegView>,
    out: Seq<char>,
    reps: Seq<Seq<char>>,
    names: Seq<String>,
    vals: Seq<String>,
) -> bool {
    &&& reps.len() == parts.len()
    &&& names.len() == parts.len()
    &&& vals.len() == parts.len()
    &&& out == fill_all(parts, reps)
    &&& forall|i: int|
        0 <= i < parts.len() && parts[i] is Ph ==> (#[trigger] names[i])@ == parts[i]->Ph_0
    &&& forall|i: int| 0 <= i < parts.len() && parts[i] is Ph ==> (#[trigger] vals[i])@ == reps[i]
    &&& forall|i: int|
        0 <= i < parts.len() && parts[i] is Ph ==> call_ensures(
            replacer,
            ((#[trigger] names[i]),),
            Ok(vals[i]),
        )
}

/// `out` is the concatenation of the parts where each placeholder was
/// replaced by a value the replacer can return for that name.
pub open spec fn replaced_parts<E, F: Fn(String) -> Result<String, E>>(
    replacer: F,
    parts: Seq<SegView>,
    out: Seq<char>,
) -> bool {
    exists|reps: Seq<Seq<char>>, names: Seq<String>, vals: Seq<String>|
        #[trigger] replaced_parts_with(replacer, parts, out, reps, names, vals)
}

/// `name` is one of the placeholders of `parts` and the replacer can fail on
/// it with `cause`.
pub open spec fn failed_replacement<E, F: Fn(String) -> Result<String, E>>(
    replacer: F,
    parts: Seq<SegView>,
    name: Seq<char>,
    cause: E,
) -> bool {
    &&& exists|i: int| 0 <= i < parts.len() && parts[i] == SegView::Ph(name)
    &&& exists|a: String| a@ == name && call_ensures(replacer, (a,), Err(cause))
}

/// Replaces every `${name}` in `string` by `replacer(name)`.
///
/// On success the result is the template's literal text with each placeholder
/// replaced by a value the replacer can return for that name; a replacement
/// failure is reported with the placeholder's name and the whole template, and
/// an unterminated `${` is reported as an unclosed-template error.
pub fn template<E, F: Fn(String) -> Result<String, E>>(string: &str, replacer: F) -> (r: Result<
    String,
    TemplateError<E>,
>)
    requires
        forall|a: String| call_requires(replacer, (a,)),
    ensures
        match r {
            Ok(out) => spec_parse(string@) matches Some(parts) && replaced_parts(
                replacer,
                parts,
                out@,
            ),
            Err(e) => match e {
                TemplateError::Unclosed { template } => template@ == string@ && spec_parse(
                    string@,
                ) is None,
                TemplateError::Replace { name, template, cause } => {
                    &&& template@ == string@
                    &&& spec_parse(string@) matches Some(parts) && failed_replacement(
                        replacer,
                        parts,
                        name@,
                        cause,
                    )
                },
            },
        },
{
    let schars = str_to_chars(string);
    match parse_parts(&schars) {
        None => Err(
            TemplateError::Unclosed { template: chars_to_string(&schars) },
        ),
        Some(parts) => {
            let ghost pv = parts_view(parts@);
            let mut out: Vec<char> = Vec::new();
            let ghost mut reps: Seq<Seq<char>> = Seq::empty();
            let ghost mut wit_a: Seq<String> = Seq::empty();
            let ghost mut wit_v: Seq<String> = Seq::empty();
            let mut idx: usize = 0;
            while idx < parts.len()
                invariant
                    forall|a: String| call_requires(replacer, (a,)),
                    pv == parts_view(parts@),
                    schars@ == string@,
                    spec_parse(schars@) == Some(pv),
                    0 <= idx <= parts@.len(),
                    pv.len() == parts@.len(),
                    reps.len() == idx,
                    wit_a.len() == idx,
                    wit_v.len() == idx,
                    out@ == fill_all(pv.take(idx as int), reps),
                    forall|i: int|
                        0 <= i < idx && pv[i] is Ph ==> (#[trigger] wit_a[i])@ == pv[i]->Ph_0,
                    forall|i: int|
                        0 <= i < idx && pv[i] is Ph ==> (#[trigger] wit_v[i])@ == reps[i],
                    forall|i: int|
                        0 <= i < idx && pv[i] is Ph ==> call_ensures(
                            replacer,
                            ((#[trigger] wit_a[i]),),
                            Ok(wit_v[i]),
                        ),
                decreases parts@.len() - idx,
            {
                let ghost old_reps = reps;
                let ghost old_wit_a = wit_a;
                let ghost old_wit_v = wit_v;
                match &parts[idx] {
                    TemplatePart::Literal(l) => {
                        append_chars(&mut out, l);
                        proof {
                            reps = reps.push(Seq::empty());
                            wit_a = wit_a.push(arbitrary());
                            wit_v = wit_v.push(arbitrary());
                            lemma_fill_all_snoc(
                                pv.take(idx as int),
                                old_reps,
                                pv[idx as int],
                                Seq::empty(),
                            );
                            assert(pv.take(idx + 1) =~= pv.take(idx as int).push(pv[idx as int]));
                            assert(pv[idx as int] is Lit);
                            assert(forall|i: int| 0 <= i < idx ==> #[trigger] reps[i] == old_reps[i]);
                            assert(forall|i: int|
                                0 <= i < idx ==> #[trigger] wit_a[i] == old_wit_a[i]);
                            assert(forall|i: int|
                                0 <= i < idx ==> #[trigger] wit_v[i] == old_wit_v[i]);
                        }
                    },
                    TemplatePart::Placeholder(n) => {
                        let name_string = chars_to_string(n);
                        let ghost name_arg = name_string;
                        match replacer(name_string) {
                            Ok(v) => {
                                let vchars = str_to_chars(v.as_str());
                                append_chars(&mut out, &vchars);
                                proof {
                                    reps = reps.push(v@);
                                    wit_a = wit_a.push(name_arg);
                                    wit_v = wit_v.push(v);
                                    lemma_fill_all_snoc(
                                        pv.take(idx as int),
                                        old_reps,
                                        pv[idx as int],
                                        v@,
                                    );
                                    assert(pv.take(idx + 1) =~= pv.take(idx as int).push(
                                        pv[idx as int],
                                    ));
                                    assert(pv[idx as int] == SegView::Ph(n@));
                                    assert(wit_a[idx as int] == name_arg);
                                    assert(wit_v[idx as int] == v);
                                    assert(reps[idx as int] == v@);
                                    assert(name_arg@ == n@);
                                    assert(call_ensures(replacer, (name_arg,), Ok::<String, E>(v)));
                                    assert(forall|i: int|
                                        0 <= i < idx ==> #[trigger] reps[i] == old_reps[i]);
                                    assert(forall|i: int|
                                        0 <= i < idx ==> #[trigger] wit_a[i] == old_wit_a[i]);
                                    assert(forall|i: int|
                                        0 <= i < idx ==> #[trigger] wit_v[i] == old_wit_v[i]);
                                }
                            },
                            Err(cause) => {
                                let name_again = chars_to_string(n);
                                let template_again = chars_to_string(&schars);
                                proof {
                                    assert(pv[idx as int] == SegView::Ph(n@));
                                    assert(template_again@ == string@);
                                    assert(call_ensures(
                                        replacer,
                                        (name_arg,),
                                        Err::<String, E>(cause),
                                    ));
                                    assert(failed_replacement(replacer, pv, n@, cause));
                                }
                                return Err(
                                    TemplateError::Replace {
                                        name: name_again,
                                        template: template_again,
                                        cause,
                                    },
                                );
                            },
                        }
                    },
                }
                proof {
                    assert(forall|i: int|
                        0 <= i < idx + 1 && pv[i] is Ph ==> (#[trigger] wit_a[i])@
                            == pv[i]->Ph_0);
                    assert(forall|i: int|
                        0 <= i < idx + 1 && pv[i] is Ph ==> (#[trigger] wit_v[i])@ == reps[i]);
                    assert(forall|i: int|
                        0 <= i < idx + 1 && pv[i] is Ph ==> call_ensures(
                            replacer,
                            ((#[trigger] wit_a[i]),),
                            Ok(wit_v[i]),
                        ));
                }
                idx += 1;
            }
            proof {
                assert(pv.take(pv.len() as int) =~= pv);
                assert(out@ == fill_all(pv, reps));
                assert(replaced_parts_with(replacer, pv, out@, reps, wit_a, wit_v));
                assert(replaced_parts(replacer, pv, out@));
            }
            Ok(chars_to_string(&out))
        },
    }
}

} // verus!
