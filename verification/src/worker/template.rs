//! Path templates and their expansion into paths.
//!
//! A template is text in which `{name}` stands for one segment and
//! `{*name}` for the rest of a path. A doubled brace, `{{` or `}}`, stands
//! for the brace itself.
use crate::path::{value_of, PathArgs};
use vstd::prelude::*;
use vstd::string::*;

verus! {

/// The index of the first `}` of `t` at or after `i`, or the length of `t`
/// where there is none.
pub open spec fn closing(t: Seq<char>, i: int) -> int
    decreases t.len() - i,
{
    if i < 0 || i >= t.len() {
        t.len() as int
    } else if t[i] == '}' {
        i
    } else {
        closing(t, i + 1)
    }
}

/// The name that stands between the braces of a placeholder: what is
/// written there, without the `*` of a wildcard.
pub open spec fn placeholder_name(inner: Seq<char>) -> Seq<char> {
    if inner.len() > 0 && inner[0] == '*' {
        inner.drop_first()
    } else {
        inner
    }
}

/// What the template gives from index `i` on: the text, and the
/// placeholders for which `args` has no value, in order.
///
/// A doubled brace gives the brace. A placeholder gives the value of the
/// argument it names; with no such argument it stays as it is and is
/// reported. A `{` that no `}` follows is text, with all that comes after
/// it. Everything else is copied.
pub open spec fn expand_from(t: Seq<char>, args: Seq<(Seq<char>, Seq<char>)>, i: int) -> (
    Seq<char>,
    Seq<Seq<char>>,
)
    decreases t.len() - i,
    via expand_from_decreases
{
    if i < 0 || i >= t.len() {
        (Seq::empty(), Seq::empty())
    } else if (t[i] == '{' || t[i] == '}') && i + 1 < t.len() && t[i + 1] == t[i] {
        let rest = expand_from(t, args, i + 2);
        (seq![t[i]] + rest.0, rest.1)
    } else if t[i] == '{' {
        let j = closing(t, i + 1);
        if j >= t.len() {
            (t.skip(i), Seq::empty())
        } else {
            let rest = expand_from(t, args, j + 1);
            match value_of(args, placeholder_name(t.subrange(i + 1, j))) {
                Some(value) => (value + rest.0, rest.1),
                None => (t.subrange(i, j + 1) + rest.0, seq![t.subrange(i, j + 1)] + rest.1),
            }
        }
    } else {
        let rest = expand_from(t, args, i + 1);
        (seq![t[i]] + rest.0, rest.1)
    }
}

/// The number of opening braces of the template from index `i` on that
/// are not doubled: an upper bound on the placeholders that stand there.
pub open spec fn openers(t: Seq<char>, i: int) -> nat
    decreases t.len() - i,
{
    if i < 0 || i >= t.len() {
        0
    } else if (t[i] == '{' || t[i] == '}') && i + 1 < t.len() && t[i + 1] == t[i] {
        openers(t, i + 2)
    } else if t[i] == '{' {
        1 + openers(t, i + 1)
    } else {
        openers(t, i + 1)
    }
}

/// The path that a template gives with the arguments, or the placeholders
/// for which there is no argument.
pub open spec fn expand(t: Seq<char>, args: Seq<(Seq<char>, Seq<char>)>) -> Result<
    Seq<char>,
    Seq<Seq<char>>,
> {
    let all = expand_from(t, args, 0);
    if all.1.len() == 0 {
        Ok(all.0)
    } else {
        Err(all.1)
    }
}

#[via_fn]
proof fn expand_from_decreases(t: Seq<char>, args: Seq<(Seq<char>, Seq<char>)>, i: int) {
    if 0 <= i < t.len() {
        lemma_closing(t, i + 1);
    }
}

/// The first `}` at or after an index is a `}`, and none stands between the
/// two.
pub proof fn lemma_closing(t: Seq<char>, i: int)
    requires
        0 <= i <= t.len(),
    ensures
        i <= closing(t, i) <= t.len(),
        closing(t, i) < t.len() ==> t[closing(t, i)] == '}',
        forall|k: int| i <= k < closing(t, i) ==> t[k] != '}',
    decreases t.len() - i,
{
    if i < t.len() && t[i] != '}' {
        lemma_closing(t, i + 1);
    }
}

/// The index of the first `}` at or after `i`.
fn find_closing(t: &str, n: usize, i: usize) -> (r: usize)
    requires
        n == t@.len(),
        i <= n,
    ensures
        r == closing(t@, i as int),
        i <= r <= n,
{
    let mut j: usize = i;
    while j < n
        invariant
            n == t@.len(),
            i <= j <= n,
            closing(t@, i as int) == closing(t@, j as int),
        decreases n - j,
    {
        if t.get_char(j) == '}' {
            return j;
        }
        j += 1;
    }
    j
}

/// The number of opening braces of the template that are not doubled.
pub fn count_openers(template: &str) -> (r: usize)
    ensures
        r == openers(template@, 0),
{
    let n = template.unicode_len();
    let mut count: usize = 0;
    let mut i: usize = 0;
    while i < n
        invariant
            n == template@.len(),
            0 <= i <= n,
            count <= i,
            openers(template@, 0) == count + openers(template@, i as int),
        decreases n - i,
    {
        let c = template.get_char(i);
        if (c == '{' || c == '}') && i + 1 < n && template.get_char(i + 1) == c {
            i += 2;
        } else if c == '{' {
            count += 1;
            i += 1;
        } else {
            i += 1;
        }
    }
    count
}

/// The names as text.
pub open spec fn names_model(names: Seq<String>) -> Seq<Seq<char>> {
    names.map_values(|s: String| s@)
}

/// Expands a template with the arguments: the path, or the placeholders
/// that no argument fills.
pub fn expand_template(template: &str, args: &PathArgs) -> (r: Result<String, Vec<String>>)
    ensures
        match expand(template@, args@) {
            Ok(path) => r is Ok && r->Ok_0@ == path,
            Err(missing) => r is Err && names_model(r->Err_0@) == missing,
        },
{
    let n = template.unicode_len();
    let mut out = String::new();
    let mut missing: Vec<String> = Vec::new();
    let mut i: usize = 0;
    while i < n
        invariant
            n == template@.len(),
            0 <= i <= n,
            expand_from(template@, args@, 0).0 == out@ + expand_from(template@, args@, i as int).0,
            expand_from(template@, args@, 0).1 == names_model(missing@) + expand_from(
                template@,
                args@,
                i as int,
            ).1,
        decreases n - i,
    {
        let ghost t = template@;
        let ghost before = out@;
        let ghost reported = names_model(missing@);
        let c = template.get_char(i);
        if (c == '{' || c == '}') && i + 1 < n && template.get_char(i + 1) == c {
            out.append(template.substring_char(i, i + 1));
            proof {
                let rest = expand_from(t, args@, i + 2);
                assert(t.subrange(i as int, i + 1) == seq![t[i as int]]);
                assert(before + (seq![t[i as int]] + rest.0) == (before + seq![t[i as int]])
                    + rest.0);
            }
            i += 2;
        } else if c == '{' {
            let j = find_closing(template, n, i + 1);
            if j >= n {
                out.append(template.substring_char(i, n));
                proof {
                    assert(t.subrange(i as int, n as int) == t.skip(i as int));
                    assert(reported + Seq::<Seq<char>>::empty() == reported);
                    assert(expand_from(t, args@, n as int).0 == Seq::<char>::empty());
                    assert(out@ + Seq::<char>::empty() == out@);
                }
                i = n;
            } else {
                let inner = template.substring_char(i + 1, j);
                let name = if j > i + 1 && template.get_char(i + 1) == '*' {
                    proof {
                        assert(t.subrange(i + 1, j as int).drop_first() == t.subrange(
                            i + 2,
                            j as int,
                        ));
                    }
                    template.substring_char(i + 2, j)
                } else {
                    inner
                };
                assert(name@ == placeholder_name(t.subrange(i + 1, j as int)));
                let ghost rest = expand_from(t, args@, j + 1);
                match args.get(name) {
                    Some(value) => {
                        out.append(value.as_str());
                        proof {
                            assert(before + (value@ + rest.0) == (before + value@) + rest.0);
                        }
                    },
                    None => {
                        let placeholder = template.substring_char(i, j + 1);
                        out.append(placeholder);
                        missing.push(String::from_str(placeholder));
                        proof {
                            let p = t.subrange(i as int, j + 1);
                            assert(before + (p + rest.0) == (before + p) + rest.0);
                            assert(names_model(missing@) =~= reported + seq![p]);
                            assert(reported + (seq![p] + rest.1) == (reported + seq![p]) + rest.1);
                        }
                    },
                }
                i = j + 1;
            }
        } else {
            out.append(template.substring_char(i, i + 1));
            proof {
                let rest = expand_from(t, args@, i + 1);
                assert(t.subrange(i as int, i + 1) == seq![t[i as int]]);
                assert(before + (seq![t[i as int]] + rest.0) == (before + seq![t[i as int]])
                    + rest.0);
            }
            i += 1;
        }
    }
    proof {
        assert(out@ + Seq::<char>::empty() == out@);
        assert(names_model(missing@) + Seq::<Seq<char>>::empty() == names_model(missing@));
    }
    if missing.len() == 0 {
        Ok(out)
    } else {
        Err(missing)
    }
}

} // verus!
