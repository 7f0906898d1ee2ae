//! Component parameters: `{{ @name }}` placeholders in a template, filled
//! with the values that a component use gives.
use vstd::prelude::*;
use crate::binding::{
    close_delim, delim_vec, lemma_trim_hi_at, lemma_trim_lo_at, open_delim, pairs_view,
};
use crate::config::{
    RawWidget, SpecRawWidget, contains_name, copy_string_option, copy_token_option, lemma_raw_view,
    raws_view,
};
use crate::widget::option_string_view;
use crate::sheet::{is_name, is_name_char, is_name_exec};
use crate::text::{
    chars_of, find_from, find_in, is_space, lemma_find_from, occurs_at, string_of, trim_window,
    trimmed,
};
use crate::widget::strings_view;

verus! {

broadcast use vstd::string::group_string_axioms;

/// The value of the first parameter called `name` among `params[k..]`.
pub open spec fn param_value(params: Seq<(Seq<char>, Seq<char>)>, name: Seq<char>, k: int) -> Option<
    Seq<char>,
>
    decreases params.len() - k,
{
    if k < 0 || k >= params.len() {
        None
    } else if params[k].0 == name {
        Some(params[k].1)
    } else {
        param_value(params, name, k + 1)
    }
}

/// What a placeholder for `name` is replaced by: the parameter's value, or
/// nothing where there is no such parameter (that use is refused anyway).
pub open spec fn filler(params: Seq<(Seq<char>, Seq<char>)>, name: Seq<char>) -> Seq<char> {
    match param_value(params, name, 0) {
        Some(v) => v,
        None => seq![],
    }
}

/// Fills the placeholders of `s` from `i` on, after the text `out` and the
/// names `names` found so far. Each `{{ .. }}` whose content, white space
/// dropped, starts with `@` is a placeholder: `{{ @name }}` with `name` of
/// letters, digits, `_` and `-` is replaced by the parameter's value and
/// its name recorded; any other such form is refused, and the error holds
/// it as written. Every other text, `{{ .. }}` bindings included, stays.
pub open spec fn fill_from(
    s: Seq<char>,
    i: int,
    params: Seq<(Seq<char>, Seq<char>)>,
    out: Seq<char>,
    names: Seq<Seq<char>>,
) -> Result<(Seq<char>, Seq<Seq<char>>), Seq<char>>
    decreases s.len() - i,
{
    if i < 0 || i > s.len() {
        Ok((out, names))
    } else {
        match find_from(s, i, s.len() as int, open_delim()) {
            None => Ok((out + s.subrange(i, s.len() as int), names)),
            Some(o) => match find_from(s, o + 2, s.len() as int, close_delim()) {
                None => Ok((out + s.subrange(i, s.len() as int), names)),
                Some(c) => {
                    proof {
                        lemma_find_from(s, i, s.len() as int, open_delim());
                        lemma_find_from(s, o + 2, s.len() as int, close_delim());
                    }
                    let (a, b) = trimmed(s, o + 2, c);
                    if a < b && s[a] == '@' {
                        let name = s.subrange(a + 1, b);
                        if is_name(name) {
                            fill_from(
                                s,
                                c + 2,
                                params,
                                out + s.subrange(i, o) + filler(params, name),
                                names.push(name),
                            )
                        } else {
                            Err(s.subrange(o, c + 2))
                        }
                    } else {
                        fill_from(s, c + 2, params, out + s.subrange(i, c + 2), names)
                    }
                },
            },
        }
    }
}

/// The text `s` with its placeholders filled, after the names `names`.
pub open spec fn fill_text(
    s: Seq<char>,
    params: Seq<(Seq<char>, Seq<char>)>,
    names: Seq<Seq<char>>,
) -> Result<(Seq<char>, Seq<Seq<char>>), Seq<char>> {
    fill_from(s, 0, params, seq![], names)
}

fn param_value_exec(params: &Vec<(String, String)>, name: &String) -> (r: String)
    ensures
        r@ == filler(pairs_view(params@), name@),
{
    let ghost p = pairs_view(params@);
    let mut k: usize = 0;
    while k < params.len()
        invariant
            k <= params@.len(),
            p == pairs_view(params@),
            param_value(p, name@, 0) == param_value(p, name@, k as int),
        decreases params@.len() - k,
    {
        assert(p[k as int] == (params@[k as int].0@, params@[k as int].1@));
        if crate::params::same_text(&params[k].0, name) {
            return params[k].1.clone();
        }
        k += 1;
    }
    String::new()
}

/// Whether two texts are equal.
pub fn same_text(a: &String, b: &String) -> (r: bool)
    ensures
        r == (a@ == b@),
{
    let x = chars_of(a.as_str());
    let y = chars_of(b.as_str());
    if x.len() != y.len() {
        return false;
    }
    let mut k: usize = 0;
    while k < x.len()
        invariant
            k <= x@.len() == y@.len(),
            x@ == a@,
            y@ == b@,
            forall|j: int| 0 <= j < k ==> x@[j] == y@[j],
        decreases x@.len() - k,
    {
        if x[k] != y[k] {
            assert(x@[k as int] != y@[k as int]);
            return false;
        }
        k += 1;
    }
    assert(x@ =~= y@);
    true
}

/// Fills the placeholders of `s`, appending the names found to `names`;
/// the error is the refused placeholder as written.
pub fn fill_text_exec(s: &String, params: &Vec<(String, String)>, names: Vec<String>) -> (r: Result<
    (String, Vec<String>),
    String,
>)
    ensures
        match r {
            Ok(x) => fill_text(s@, pairs_view(params@), strings_view(names@)) == Ok::<
                (Seq<char>, Seq<Seq<char>>),
                Seq<char>,
            >((x.0@, strings_view(x.1@))),
            Err(bad) => fill_text(s@, pairs_view(params@), strings_view(names@)) == Err::<
                (Seq<char>, Seq<Seq<char>>),
                Seq<char>,
            >(bad@),
        },
{
    let c = chars_of(s.as_str());
    let n = c.len();
    let open = delim_vec(false);
    let close = delim_vec(true);
    let ghost p = pairs_view(params@);
    let ghost start = strings_view(names@);
    let mut out = String::new();
    let mut found = names;
    let mut i: usize = 0;
    loop
        invariant
            i <= n,
            n == c@.len(),
            c@ == s@,
            open@ == open_delim(),
            close@ == close_delim(),
            p == pairs_view(params@),
            start == strings_view(names@),
            fill_text(s@, p, start) == fill_from(c@, i as int, p, out@, strings_view(found@)),
        decreases n - i,
    {
        proof {
            lemma_find_from(c@, i as int, n as int, open_delim());
        }
        let o = match find_in(&c, i, n, &open) {
            None => {
                let rest = string_of(&c, i, n);
                let ghost before = out@;
                assert(fill_from(c@, i as int, p, before, strings_view(found@)) == Ok::<
                    (Seq<char>, Seq<Seq<char>>),
                    Seq<char>,
                >((before + c@.subrange(i as int, n as int), strings_view(found@))));
                out.append(rest.as_str());
                assert(out@ == before + rest@);
                return Ok((out, found));
            },
            Some(o) => o,
        };
        proof {
            lemma_find_from(c@, o + 2, n as int, close_delim());
        }
        let e = match find_in(&c, o + 2, n, &close) {
            None => {
                let rest = string_of(&c, i, n);
                out.append(rest.as_str());
                return Ok((out, found));
            },
            Some(e) => e,
        };
        let (a, b) = trim_window(&c, o + 2, e);
        if a < b && c[a] == '@' {
            if is_name_exec(&c, a + 1, b) {
                let name = string_of(&c, a + 1, b);
                let before = string_of(&c, i, o);
                let value = param_value_exec(params, &name);
                out.append(before.as_str());
                out.append(value.as_str());
                let ghost before_names = found@;
                found.push(name);
                proof {
                    assert(strings_view(found@) =~= strings_view(before_names).push(
                        c@.subrange(a + 1, b as int),
                    ));
                }
                i = e + 2;
            } else {
                return Err(string_of(&c, o, e + 2));
            }
        } else {
            let piece = string_of(&c, i, e + 2);
            out.append(piece.as_str());
            i = e + 2;
        }
    }
}

/// An optional text with its placeholders filled.
pub open spec fn fill_option(
    o: Option<Seq<char>>,
    params: Seq<(Seq<char>, Seq<char>)>,
    names: Seq<Seq<char>>,
) -> Result<(Option<Seq<char>>, Seq<Seq<char>>), Seq<char>> {
    match o {
        None => Ok((None, names)),
        Some(t) => match fill_text(t, params, names) {
            Ok(r) => Ok((Some(r.0), r.1)),
            Err(bad) => Err(bad),
        },
    }
}

/// The texts `v[k..]` with their placeholders filled, after `acc`.
pub open spec fn fill_list(
    v: Seq<Seq<char>>,
    k: int,
    params: Seq<(Seq<char>, Seq<char>)>,
    acc: Seq<Seq<char>>,
    names: Seq<Seq<char>>,
) -> Result<(Seq<Seq<char>>, Seq<Seq<char>>), Seq<char>>
    decreases v.len() - k,
{
    if k < 0 || k >= v.len() {
        Ok((acc, names))
    } else {
        match fill_text(v[k], params, names) {
            Err(bad) => Err(bad),
            Ok(r) => fill_list(v, k + 1, params, acc.push(r.0), r.1),
        }
    }
}

/// The parameters `v[k..]` of a nested component use with the placeholders
/// in their values filled, after `acc`.
pub open spec fn fill_pairs(
    v: Seq<(Seq<char>, Seq<char>)>,
    k: int,
    params: Seq<(Seq<char>, Seq<char>)>,
    acc: Seq<(Seq<char>, Seq<char>)>,
    names: Seq<Seq<char>>,
) -> Result<(Seq<(Seq<char>, Seq<char>)>, Seq<Seq<char>>), Seq<char>>
    decreases v.len() - k,
{
    if k < 0 || k >= v.len() {
        Ok((acc, names))
    } else {
        match fill_text(v[k].1, params, names) {
            Err(bad) => Err(bad),
            Ok(r) => fill_pairs(v, k + 1, params, acc.push((v[k].0, r.0)), r.1),
        }
    }
}

/// A template widget with the placeholders filled in its texts (text,
/// value, equals, not-equals), its classes, the values of the
/// parameters it passes on, and its children, in that order; the names are
/// recorded in the order met.
pub open spec fn fill_widget(
    w: SpecRawWidget,
    params: Seq<(Seq<char>, Seq<char>)>,
    names: Seq<Seq<char>>,
) -> Result<(SpecRawWidget, Seq<Seq<char>>), Seq<char>>
    decreases w, 1int, 0int,
{
    match fill_option(w.text, params, names) {
        Err(bad) => Err(bad),
        Ok(t) => match fill_option(w.value, params, t.1) {
            Err(bad) => Err(bad),
            Ok(v) => match fill_option(w.equals, params, v.1) {
                Err(bad) => Err(bad),
                Ok(e) => match fill_option(w.not_equals, params, e.1) {
                    Err(bad) => Err(bad),
                    Ok(ne) => match fill_list(w.classes, 0, params, seq![], ne.1) {
                        Err(bad) => Err(bad),
                        Ok(cl) => match fill_pairs(w.params, 0, params, seq![], cl.1) {
                            Err(bad) => Err(bad),
                            Ok(pa) => match fill_children(w, 0, params, seq![], pa.1) {
                                Err(bad) => Err(bad),
                                Ok(ch) => Ok(
                                    (
                                        SpecRawWidget {
                                            text: t.0,
                                            value: v.0,
                                            equals: e.0,
                                            not_equals: ne.0,
                                            classes: cl.0,
                                            params: pa.0,
                                            children: ch.0,
                                            ..w
                                        },
                                        ch.1,
                                    ),
                                ),
                            },
                        },
                    },
                },
            },
        },
    }
}

/// The children of `w` from `k` on with their placeholders filled, after `acc`.
pub open spec fn fill_children(
    w: SpecRawWidget,
    k: int,
    params: Seq<(Seq<char>, Seq<char>)>,
    acc: Seq<SpecRawWidget>,
    names: Seq<Seq<char>>,
) -> Result<(Seq<SpecRawWidget>, Seq<Seq<char>>), Seq<char>>
    decreases w, 0int, w.children.len() - k,
{
    if k < 0 || k >= w.children.len() {
        Ok((acc, names))
    } else {
        match fill_widget(w.children[k], params, names) {
            Err(bad) => Err(bad),
            Ok(r) => fill_children(w, k + 1, params, acc.push(r.0), r.1),
        }
    }
}

fn fill_option_exec(o: &Option<String>, params: &Vec<(String, String)>, names: Vec<String>) -> (r:
    Result<(Option<String>, Vec<String>), String>)
    ensures
        match r {
            Ok(x) => fill_option(option_string_view(*o), pairs_view(params@), strings_view(names@))
                == Ok::<(Option<Seq<char>>, Seq<Seq<char>>), Seq<char>>(
                (option_string_view(x.0), strings_view(x.1@)),
            ),
            Err(bad) => fill_option(option_string_view(*o), pairs_view(params@), strings_view(names@))
                == Err::<(Option<Seq<char>>, Seq<Seq<char>>), Seq<char>>(bad@),
        },
{
    match o {
        None => Ok((None, names)),
        Some(t) => match fill_text_exec(t, params, names) {
            Ok(x) => Ok((Some(x.0), x.1)),
            Err(bad) => Err(bad),
        },
    }
}

fn fill_list_exec(v: &Vec<String>, params: &Vec<(String, String)>, names: Vec<String>) -> (r: Result<
    (Vec<String>, Vec<String>),
    String,
>)
    ensures
        match r {
            Ok(x) => fill_list(strings_view(v@), 0, pairs_view(params@), seq![], strings_view(names@))
                == Ok::<(Seq<Seq<char>>, Seq<Seq<char>>), Seq<char>>(
                (strings_view(x.0@), strings_view(x.1@)),
            ),
            Err(bad) => fill_list(strings_view(v@), 0, pairs_view(params@), seq![], strings_view(names@))
                == Err::<(Seq<Seq<char>>, Seq<Seq<char>>), Seq<char>>(bad@),
        },
{
    let ghost start = strings_view(names@);
    let mut acc: Vec<String> = Vec::new();
    let mut found = names;
    let mut k: usize = 0;
    assert(strings_view(acc@) =~= seq![]);
    while k < v.len()
        invariant
            k <= v@.len(),
            start == strings_view(names@),
            fill_list(strings_view(v@), 0, pairs_view(params@), seq![], start) == fill_list(
                strings_view(v@),
                k as int,
                pairs_view(params@),
                strings_view(acc@),
                strings_view(found@),
            ),
        decreases v@.len() - k,
    {
        match fill_text_exec(&v[k], params, found) {
            Err(bad) => {
                return Err(bad);
            },
            Ok(x) => {
                let ghost before = acc@;
                acc.push(x.0);
                assert(strings_view(acc@) =~= strings_view(before).push(acc@.last()@));
                found = x.1;
            },
        }
        k += 1;
    }
    Ok((acc, found))
}

fn fill_pairs_exec(
    v: &Vec<(String, String)>,
    params: &Vec<(String, String)>,
    names: Vec<String>,
) -> (r: Result<(Vec<(String, String)>, Vec<String>), String>)
    ensures
        match r {
            Ok(x) => fill_pairs(pairs_view(v@), 0, pairs_view(params@), seq![], strings_view(names@))
                == Ok::<(Seq<(Seq<char>, Seq<char>)>, Seq<Seq<char>>), Seq<char>>(
                (pairs_view(x.0@), strings_view(x.1@)),
            ),
            Err(bad) => fill_pairs(pairs_view(v@), 0, pairs_view(params@), seq![], strings_view(names@))
                == Err::<(Seq<(Seq<char>, Seq<char>)>, Seq<Seq<char>>), Seq<char>>(bad@),
        },
{
    let ghost start = strings_view(names@);
    let mut acc: Vec<(String, String)> = Vec::new();
    let mut found = names;
    let mut k: usize = 0;
    assert(pairs_view(acc@) =~= seq![]);
    while k < v.len()
        invariant
            k <= v@.len(),
            start == strings_view(names@),
            fill_pairs(pairs_view(v@), 0, pairs_view(params@), seq![], start) == fill_pairs(
                pairs_view(v@),
                k as int,
                pairs_view(params@),
                pairs_view(acc@),
                strings_view(found@),
            ),
        decreases v@.len() - k,
    {
        assert(pairs_view(v@)[k as int] == (v@[k as int].0@, v@[k as int].1@));
        match fill_text_exec(&v[k].1, params, found) {
            Err(bad) => {
                return Err(bad);
            },
            Ok(x) => {
                let ghost before = acc@;
                acc.push((v[k].0.clone(), x.0));
                assert(pairs_view(acc@) =~= pairs_view(before).push(
                    (acc@.last().0@, acc@.last().1@),
                ));
                found = x.1;
            },
        }
        k += 1;
    }
    Ok((acc, found))
}

/// Fills the placeholders of a template widget, appending the names found
/// to `names`; the error is the first refused placeholder as written.
pub fn fill_widget_exec(w: &RawWidget, params: &Vec<(String, String)>, names: Vec<String>) -> (r:
    Result<(RawWidget, Vec<String>), String>)
    ensures
        match r {
            Ok(x) => fill_widget(w@, pairs_view(params@), strings_view(names@)) == Ok::<
                (SpecRawWidget, Seq<Seq<char>>),
                Seq<char>,
            >((x.0@, strings_view(x.1@))),
            Err(bad) => fill_widget(w@, pairs_view(params@), strings_view(names@)) == Err::<
                (SpecRawWidget, Seq<Seq<char>>),
                Seq<char>,
            >(bad@),
        },
    decreases w@, 1int, 0int,
{
    proof {
        lemma_raw_view(*w);
    }
    let ghost p = pairs_view(params@);
    let ghost whole = fill_widget(w@, p, strings_view(names@));
    let (text, n1) = match fill_option_exec(&w.text, params, names) {
        Err(bad) => {
            return Err(bad);
        },
        Ok(x) => x,
    };
    let source = copy_string_option(&w.source);
    let (value, n3) = match fill_option_exec(&w.value, params, n1) {
        Err(bad) => {
            return Err(bad);
        },
        Ok(x) => x,
    };
    let (equals, n4) = match fill_option_exec(&w.equals, params, n3) {
        Err(bad) => {
            return Err(bad);
        },
        Ok(x) => x,
    };
    let (not_equals, n5) = match fill_option_exec(&w.not_equals, params, n4) {
        Err(bad) => {
            return Err(bad);
        },
        Ok(x) => x,
    };
    let (classes, n6) = match fill_list_exec(&w.classes, params, n5) {
        Err(bad) => {
            return Err(bad);
        },
        Ok(x) => x,
    };
    let (passed, n7) = match fill_pairs_exec(&w.params, params, n6) {
        Err(bad) => {
            return Err(bad);
        },
        Ok(x) => x,
    };
    let mut children: Vec<RawWidget> = Vec::new();
    let mut found = n7;
    let ghost mid = strings_view(found@);
    let mut k: usize = 0;
    assert(raws_view(children@) =~= seq![]);
    assert(fill_children(w@, 0, p, seq![], mid) matches Err(b) ==> whole == Err::<
        (SpecRawWidget, Seq<Seq<char>>),
        Seq<char>,
    >(b));
    while k < w.children.len()
        invariant
            k <= w.children@.len(),
            whole == fill_widget(w@, pairs_view(params@), strings_view(names@)),
            fill_children(w@, 0, p, seq![], mid) matches Err(b) ==> whole == Err::<
                (SpecRawWidget, Seq<Seq<char>>),
                Seq<char>,
            >(b),
            w@.children == raws_view(w.children@),
            fill_children(w@, 0, p, seq![], mid) == fill_children(
                w@,
                k as int,
                p,
                raws_view(children@),
                strings_view(found@),
            ),
            p == pairs_view(params@),
        decreases w.children@.len() - k,
    {
        proof {
            assert(decreases_to!(w@ => w@.children));
            assert(decreases_to!(w@.children => w@.children[k as int]));
            assert(w@.children[k as int] == w.children@[k as int]@);
        }
        match fill_widget_exec(&w.children[k], params, found) {
            Err(bad) => {
                return Err(bad);
            },
            Ok(x) => {
                let ghost before = children@;
                children.push(x.0);
                assert(raws_view(children@) =~= raws_view(before).push(children@.last()@));
                found = x.1;
            },
        }
        k += 1;
    }
    let r = RawWidget {
        kind: w.kind,
        id: copy_string_option(&w.id),
        classes,
        children,
        text,
        source,
        value,
        min: copy_token_option(&w.min),
        max: copy_token_option(&w.max),
        orientation: w.orientation,
        start_angle: copy_token_option(&w.start_angle),
        sweep_angle: copy_token_option(&w.sweep_angle),
        thickness: copy_token_option(&w.thickness),
        needle_width: copy_token_option(&w.needle_width),
        line_width: copy_token_option(&w.line_width),
        fill: w.fill,
        equals,
        not_equals,
        component: copy_string_option(&w.component),
        params: passed,
    };
    proof {
        lemma_raw_view(r);
    }
    Ok((r, found))
}

/// The first of the names `names[k..]` that no parameter gives.
pub open spec fn first_missing(
    names: Seq<Seq<char>>,
    params: Seq<(Seq<char>, Seq<char>)>,
    k: int,
) -> Option<Seq<char>>
    decreases names.len() - k,
{
    if k < 0 || k >= names.len() {
        None
    } else if param_value(params, names[k], 0) is None {
        Some(names[k])
    } else {
        first_missing(names, params, k + 1)
    }
}

/// The name of the first of the parameters `params[k..]` that no
/// placeholder uses.
pub open spec fn first_unused(
    params: Seq<(Seq<char>, Seq<char>)>,
    names: Seq<Seq<char>>,
    k: int,
) -> Option<Seq<char>>
    decreases params.len() - k,
{
    if k < 0 || k >= params.len() {
        None
    } else if !names.contains(params[k].0) {
        Some(params[k].0)
    } else {
        first_unused(params, names, k + 1)
    }
}

fn has_param(params: &Vec<(String, String)>, name: &String) -> (r: bool)
    ensures
        r == param_value(pairs_view(params@), name@, 0) is Some,
{
    let ghost p = pairs_view(params@);
    let mut k: usize = 0;
    while k < params.len()
        invariant
            k <= params@.len(),
            p == pairs_view(params@),
            param_value(p, name@, 0) == param_value(p, name@, k as int),
        decreases params@.len() - k,
    {
        assert(p[k as int] == (params@[k as int].0@, params@[k as int].1@));
        if same_text(&params[k].0, name) {
            return true;
        }
        k += 1;
    }
    false
}

/// The first name found that no parameter gives.
pub fn first_missing_exec(names: &Vec<String>, params: &Vec<(String, String)>) -> (r: Option<String>)
    ensures
        option_string_view(r) == first_missing(strings_view(names@), pairs_view(params@), 0),
{
    let ghost v = strings_view(names@);
    let mut k: usize = 0;
    while k < names.len()
        invariant
            k <= names@.len(),
            v == strings_view(names@),
            first_missing(v, pairs_view(params@), 0) == first_missing(v, pairs_view(params@), k as int),
        decreases names@.len() - k,
    {
        if !has_param(params, &names[k]) {
            return Some(names[k].clone());
        }
        k += 1;
    }
    None
}

/// The name of the first parameter that no placeholder uses.
pub fn first_unused_exec(params: &Vec<(String, String)>, names: &Vec<String>) -> (r: Option<String>)
    ensures
        option_string_view(r) == first_unused(pairs_view(params@), strings_view(names@), 0),
{
    let ghost p = pairs_view(params@);
    let mut k: usize = 0;
    while k < params.len()
        invariant
            k <= params@.len(),
            p == pairs_view(params@),
            first_unused(p, strings_view(names@), 0) == first_unused(p, strings_view(names@), k as int),
        decreases params@.len() - k,
    {
        assert(p[k as int] == (params@[k as int].0@, params@[k as int].1@));
        if !contains_name(names, &params[k].0) {
            return Some(params[k].0.clone());
        }
        k += 1;
    }
    None
}

pub(crate) proof fn lemma_find_at(s: Seq<char>, i: int, m: int, hi: int, pat: Seq<char>)
    requires
        0 <= i <= m,
        m + pat.len() <= hi,
        occurs_at(s, m, pat),
        forall|j: int| i <= j < m ==> !occurs_at(s, j, pat),
    ensures
        find_from(s, i, hi, pat) == Some(m),
    decreases m - i,
{
    if i < m {
        lemma_find_at(s, i + 1, m, hi, pat);
    }
}

/// The text of a placeholder for `name`: `{{ @name }}`.
pub open spec fn placeholder(name: Seq<char>) -> Seq<char> {
    seq!['{', '{', ' ', '@'] + name + seq![' ', '}', '}']
}

/// A placeholder is replaced by its parameter's value, and its name is
/// recorded: filling `{{ @name }}` gives the value of the first parameter
/// called `name`.
pub proof fn law_placeholder_is_replaced(
    name: Seq<char>,
    params: Seq<(Seq<char>, Seq<char>)>,
    names: Seq<Seq<char>>,
)
    requires
        is_name(name),
    ensures
        fill_text(placeholder(name), params, names) == Ok::<
            (Seq<char>, Seq<Seq<char>>),
            Seq<char>,
        >((filler(params, name), names.push(name))),
{
    let t = placeholder(name);
    let n = t.len() as int;
    let m = name.len() as int;
    assert(n == m + 7);
    assert forall|k: int| 0 <= k < m implies t[4 + k] == name[k] by {}
    assert(t.subrange(0, 2) =~= open_delim());
    lemma_find_at(t, 0, 0, n, open_delim());
    assert forall|j: int| 2 <= j < n - 2 implies !occurs_at(t, j, close_delim()) by {
        if 4 <= j < 4 + m {
            assert(is_name_char(name[j - 4]));
            assert(t[j] == name[j - 4]);
        }
        assert(t[j] != '}');
        assert(t.subrange(j, j + 2)[0] == t[j]);
    }
    assert(t.subrange(n - 2, n) =~= close_delim());
    lemma_find_at(t, 2, n - 2, n, close_delim());
    assert(is_space(t[2]));
    assert(!is_space(t[3]));
    lemma_trim_lo_at(t, 2, 3, n - 2);
    assert(is_name_char(name[m - 1]));
    assert(t[n - 4] == name[m - 1]);
    assert(!is_space(t[n - 4]));
    assert(is_space(t[n - 3]));
    lemma_trim_hi_at(t, 3, n - 3, n - 2);
    assert(t.subrange(4, n - 3) =~= name);
    let out = seq![] + t.subrange(0, 0) + filler(params, name);
    assert(out =~= filler(params, name));
    assert(trimmed(t, 2, n - 2) == (3int, n - 3));
    assert(t[3] == '@');
    assert(fill_from(t, n, params, out, names.push(name)) == Ok::<
        (Seq<char>, Seq<Seq<char>>),
        Seq<char>,
    >((out + t.subrange(n, n), names.push(name))));
    assert(out + t.subrange(n, n) =~= out);
    assert(fill_from(t, 0, params, seq![], names) == fill_from(
        t,
        n,
        params,
        seq![] + t.subrange(0, 0) + filler(params, name),
        names.push(name),
    ));
}

} // verus!
