//! Command-line argument scanning shared by the driver front ends.

use vstd::prelude::*;

verus! {

/// Index of the first `=` in `a`, or `a.len()` when there is none.
pub open spec fn spec_eq_pos(a: Seq<char>) -> int
    decreases a.len(),
{
    if a.len() == 0 {
        0
    } else if a[0] == '=' {
        0
    } else {
        1 + spec_eq_pos(a.skip(1))
    }
}

pub proof fn lemma_eq_pos_bounds(a: Seq<char>)
    ensures
        0 <= spec_eq_pos(a) <= a.len(),
        spec_eq_pos(a) < a.len() ==> a[spec_eq_pos(a)] == '=',
        forall|j: int| 0 <= j < spec_eq_pos(a) ==> a[j] != '=',
    decreases a.len(),
{
    if a.len() == 0 {
    } else if a[0] == '=' {
    } else {
        lemma_eq_pos_bounds(a.skip(1));
        assert forall|j: int| 0 <= j < spec_eq_pos(a) implies a[j] != '=' by {
            if j > 0 {
                assert(a.skip(1)[j - 1] == a[j]);
            }
        }
        if spec_eq_pos(a) < a.len() {
            assert(a.skip(1)[spec_eq_pos(a) - 1] == a[spec_eq_pos(a)]);
        }
    }
}

proof fn lemma_eq_pos_of_scan(a: Seq<char>, i: int)
    requires
        0 <= i <= a.len(),
        forall|j: int| 0 <= j < i ==> a[j] != '=',
        i < a.len() ==> a[i] == '=',
    ensures
        i < a.len() ==> spec_eq_pos(a) == i,
        i == a.len() ==> spec_eq_pos(a) == a.len(),
    decreases i,
{
    if a.len() == 0 {
    } else if i == 0 {
        if a.len() > 0 && a[0] != '=' {
            lemma_eq_pos_bounds(a.skip(1));
        }
    } else {
        assert(a[0] != '=');
        assert(forall|j: int| 0 <= j < i - 1 ==> a.skip(1)[j] == a[j + 1]);
        lemma_eq_pos_of_scan(a.skip(1), i - 1);
    }
}

/// Index of the first `=` in `s`, or the character length of `s` when there
/// is none.
pub fn find_eq(s: &str) -> (r: usize)
    ensures
        r == spec_eq_pos(s@),
{
    let n = s.unicode_len();
    let mut i: usize = 0;
    while i < n
        invariant
            0 <= i <= n,
            n == s@.len(),
            forall|j: int| 0 <= j < i ==> s@[j] != '=',
        decreases n - i,
    {
        if s.get_char(i) == '=' {
            proof {
                lemma_eq_pos_of_scan(s@, i as int);
            }
            return i;
        }
        i += 1;
    }
    proof {
        lemma_eq_pos_of_scan(s@, n as int);
    }
    n
}

/// The values selected from `args` for the option `needle`: for `--opt=v`
/// forms the text after the first `=`, for `--opt v` forms the following
/// argument, which is itself skipped by the scan.
pub open spec fn spec_arg_values(args: Seq<Seq<char>>, needle: Seq<char>) -> Seq<Seq<char>>
    decreases args.len(),
{
    if args.len() == 0 {
        Seq::empty()
    } else {
        let a = args[0];
        let p = spec_eq_pos(a);
        if p < a.len() {
            if a.take(p) == needle {
                seq![a.skip(p + 1)] + spec_arg_values(args.skip(1), needle)
            } else {
                spec_arg_values(args.skip(1), needle)
            }
        } else {
            if a == needle {
                if args.len() == 1 {
                    Seq::empty()
                } else {
                    seq![args[1]] + spec_arg_values(args.skip(2), needle)
                }
            } else {
                spec_arg_values(args.skip(1), needle)
            }
        }
    }
}

/// Returns the values of the command-line options that match `needle`. The
/// options are built-in to be of the form `--arg=value` or `--arg value`.
pub fn arg_values(args: &Vec<String>, needle: &str) -> (r: Vec<String>)
    ensures
        r.deep_view() == spec_arg_values(args.deep_view(), needle@),
{
    let ghost full = args.deep_view();
    let ghost goal = spec_arg_values(args.deep_view(), needle@);
    let mut r: Vec<String> = Vec::new();
    let mut i: usize = 0;
    let n = args.len();
    proof {
        assert(full.skip(0) =~= full);
        assert(r.deep_view() =~= Seq::<Seq<char>>::empty());
        assert(Seq::<Seq<char>>::empty() + goal =~= goal);
    }
    while i < n
        invariant
            0 <= i <= n,
            n == args.len(),
            full == args.deep_view(),
            goal == spec_arg_values(args.deep_view(), needle@),
            r.deep_view() + spec_arg_values(full.skip(i as int), needle@) == goal,
        decreases n - i,
    {
        let ghost pre = r.deep_view();
        let ghost rest = full.skip(i as int);
        let ghost tail = spec_arg_values(rest, needle@);
        let a: &String = &args[i];
        let alen = a.as_str().unicode_len();
        let p = find_eq(a.as_str());
        proof {
            assert(rest[0] == full[i as int]);
            assert(full[i as int] == a@);
            lemma_eq_pos_bounds(a@);
            assert(rest.skip(1) =~= full.skip(i + 1));
        }
        if p < alen {
            let key = a.as_str().substring_char(0, p);
            proof {
                assert(key@ =~= a@.take(p as int));
            }
            if str_eq_str(key, needle) {
                let val = a.as_str().substring_char(p + 1, alen);
                let ghost v = a@.skip(p + 1);
                proof {
                    assert(val@ =~= v);
                }
                r.push(val.to_owned());
                proof {
                    assert(tail == seq![v] + spec_arg_values(full.skip(i + 1), needle@));
                    assert(r.deep_view() =~= pre.push(v));
                    assert(pre.push(v) =~= pre + seq![v]);
                    assert((pre + seq![v]) + spec_arg_values(full.skip(i + 1), needle@) =~= pre + (
                    seq![v] + spec_arg_values(full.skip(i + 1), needle@)));
                }
            } else {
                proof {
                    assert(a@.take(p as int) != needle@);
                    assert(tail == spec_arg_values(full.skip(i + 1), needle@));
                }
            }
            i += 1;
        } else {
            if str_eq_str(a.as_str(), needle) {
                proof {
                    assert(a@ == needle@);
                }
                if i + 1 < n {
                    let val: &String = &args[i + 1];
                    let ghost v = full[i + 1];
                    proof {
                        assert(rest.len() >= 2);
                        assert(rest[1] == v);
                        assert(tail == seq![v] + spec_arg_values(rest.skip(2), needle@));
                        assert(rest.skip(2) =~= full.skip(i + 2));
                        assert(v == args@[i + 1]@);
                    }
                    r.push(val.clone());
                    proof {
                        assert(r.deep_view() =~= pre.push(v));
                        assert(pre.push(v) =~= pre + seq![v]);
                        assert((pre + seq![v]) + spec_arg_values(full.skip(i + 2), needle@) =~= pre
                            + (seq![v] + spec_arg_values(full.skip(i + 2), needle@)));
                    }
                    i += 2;
                } else {
                    proof {
                        assert(rest.len() == 1);
                        assert(tail =~= Seq::<Seq<char>>::empty());
                        assert(pre + tail =~= pre);
                        assert(full.skip(i + 1).len() == 0);
                        assert(spec_arg_values(full.skip(i + 1), needle@)
                            =~= Seq::<Seq<char>>::empty());
                        assert(pre + spec_arg_values(full.skip(i + 1), needle@) =~= pre);
                    }
                    i += 1;
                }
            } else {
                proof {
                    assert(a@ != needle@);
                    assert(tail == spec_arg_values(full.skip(i + 1), needle@));
                }
                i += 1;
            }
        }
    }
    proof {
        assert(full.skip(n as int).len() == 0);
        assert(spec_arg_values(full.skip(n as int), needle@) =~= Seq::<Seq<char>>::empty());
        assert(r.deep_view() + Seq::<Seq<char>>::empty() =~= r.deep_view());
    }
    r
}

/// The first value selected from `args` for the option `needle`, if any.
pub fn arg_value(args: &Vec<String>, needle: &str) -> (r: Option<String>)
    ensures
        match r {
            Some(v) => spec_arg_values(args.deep_view(), needle@).len() > 0 && v@
                == spec_arg_values(args.deep_view(), needle@)[0],
            None => spec_arg_values(args.deep_view(), needle@).len() == 0,
        },
{
    let vs = arg_values(args, needle);
    if vs.len() > 0 {
        Some(vs[0].clone())
    } else {
        None
    }
}

/// Relies on std's `String::push`: appends the given character to the end of
/// the string.
#[verifier::external_body]
pub fn push_char(s: &mut String, c: char)
    ensures
        final(s)@ == old(s)@.push(c),
{
    s.push(c);
}

/// The decimal digits of `n`, most significant first.
pub open spec fn spec_dec(n: nat) -> Seq<char>
    decreases n,
{
    if n < 10 {
        seq![spec_digit(n)]
    } else {
        spec_dec(n / 10).push(spec_digit(n % 10))
    }
}

pub open spec fn spec_digit(d: nat) -> char {
    if d == 0 {
        '0'
    } else if d == 1 {
        '1'
    } else if d == 2 {
        '2'
    } else if d == 3 {
        '3'
    } else if d == 4 {
        '4'
    } else if d == 5 {
        '5'
    } else if d == 6 {
        '6'
    } else if d == 7 {
        '7'
    } else if d == 8 {
        '8'
    } else {
        '9'
    }
}

fn digit_char(d: u128) -> (r: char)
    requires
        d < 10,
    ensures
        r == spec_digit(d as nat),
{
    if d == 0 {
        '0'
    } else if d == 1 {
        '1'
    } else if d == 2 {
        '2'
    } else if d == 3 {
        '3'
    } else if d == 4 {
        '4'
    } else if d == 5 {
        '5'
    } else if d == 6 {
        '6'
    } else if d == 7 {
        '7'
    } else if d == 8 {
        '8'
    } else {
        '9'
    }
}

/// Renders `n` in decimal.
pub fn u128_to_dec(n: u128) -> (r: String)
    ensures
        r@ == spec_dec(n as nat),
    decreases n,
{
    if n < 10 {
        let mut s = String::new();
        push_char(&mut s, digit_char(n));
        proof {
            assert(s@ =~= seq![spec_digit(n as nat)]);
        }
        s
    } else {
        let mut s = u128_to_dec(n / 10);
        push_char(&mut s, digit_char(n % 10));
        s
    }
}

/// `parts` joined by `sep`.
pub open spec fn spec_join(parts: Seq<Seq<char>>, sep: Seq<char>) -> Seq<char>
    decreases parts.len(),
{
    if parts.len() == 0 {
        Seq::empty()
    } else if parts.len() == 1 {
        parts[0]
    } else {
        spec_join(parts.drop_last(), sep) + sep + parts.last()
    }
}

/// Joins rendered pieces with a separator.
pub fn join_strs(parts: &Vec<String>, sep: &str) -> (r: String)
    ensures
        r@ == spec_join(parts.deep_view(), sep@),
{
    let mut s = String::new();
    let mut i: usize = 0;
    let n = parts.len();
    proof {
        assert(s@ =~= Seq::<char>::empty());
        assert(parts.deep_view().take(0).len() == 0);
    }
    while i < n
        invariant
            0 <= i <= n,
            n == parts.len(),
            s@ == spec_join(parts.deep_view().take(i as int), sep@),
        decreases n - i,
    {
        let ghost pv = parts.deep_view();
        proof {
            assert(pv.take(i + 1).drop_last() =~= pv.take(i as int));
            assert(pv.take(i + 1).last() == pv[i as int]);
            assert(pv[i as int] == parts@[i as int]@);
        }
        if i > 0 {
            s.append(sep);
        }
        s.append(parts[i].as_str());
        proof {
            if i == 0 {
                assert(Seq::<char>::empty() + pv[0] =~= pv[0]);
                assert(pv.take(1).len() == 1);
                assert(pv.take(1)[0] == pv[0]);
            }
        }
        i += 1;
    }
    proof {
        assert(parts.deep_view().take(n as int) =~= parts.deep_view());
    }
    s
}

/// How one character of a string literal is spelled inside double quotes.
pub open spec fn spec_escaped_in_str(c: char) -> Seq<char> {
    if c == '"' {
        seq!['\\', '"']
    } else if c == '\\' {
        seq!['\\', '\\']
    } else if c == '\n' {
        seq!['\\', 'n']
    } else if c == '\r' {
        seq!['\\', 'r']
    } else if c == '\t' {
        seq!['\\', 't']
    } else {
        seq![c]
    }
}

/// How one character literal is spelled inside single quotes.
pub open spec fn spec_escaped_in_char(c: char) -> Seq<char> {
    if c == '\'' {
        seq!['\\', '\'']
    } else if c == '\\' {
        seq!['\\', '\\']
    } else if c == '\n' {
        seq!['\\', 'n']
    } else if c == '\r' {
        seq!['\\', 'r']
    } else if c == '\t' {
        seq!['\\', 't']
    } else {
        seq![c]
    }
}

/// The body of a double-quoted spelling of `s`.
pub open spec fn spec_escape_str(s: Seq<char>) -> Seq<char>
    decreases s.len(),
{
    if s.len() == 0 {
        Seq::empty()
    } else {
        spec_escaped_in_str(s[0]) + spec_escape_str(s.skip(1))
    }
}

fn push_escaped_in_str(out: &mut String, c: char)
    ensures
        final(out)@ == old(out)@ + spec_escaped_in_str(c),
{
    let ghost pre = out@;
    if c == '"' {
        out.append("\\\"");
        proof {
            reveal_strlit("\\\"");
            assert(pre + "\\\""@ =~= pre + spec_escaped_in_str(c));
        }
    } else if c == '\\' {
        out.append("\\\\");
        proof {
            reveal_strlit("\\\\");
            assert(pre + "\\\\"@ =~= pre + spec_escaped_in_str(c));
        }
    } else if c == '\n' {
        out.append("\\n");
        proof {
            reveal_strlit("\\n");
            assert(pre + "\\n"@ =~= pre + spec_escaped_in_str(c));
        }
    } else if c == '\r' {
        out.append("\\r");
        proof {
            reveal_strlit("\\r");
            assert(pre + "\\r"@ =~= pre + spec_escaped_in_str(c));
        }
    } else if c == '\t' {
        out.append("\\t");
        proof {
            reveal_strlit("\\t");
            assert(pre + "\\t"@ =~= pre + spec_escaped_in_str(c));
        }
    } else {
        push_char(out, c);
        proof {
            assert(pre.push(c) =~= pre + spec_escaped_in_str(c));
        }
    }
}

/// Appends the escaped body of a double-quoted spelling of `s`.
pub fn append_escaped_str(out: &mut String, s: &str)
    ensures
        final(out)@ == old(out)@ + spec_escape_str(s@),
{
    let n = s.unicode_len();
    let mut i: usize = 0;
    proof {
        assert(old(out)@ + Seq::<char>::empty() =~= old(out)@);
        assert(spec_escape_str(s@.take(0)) =~= Seq::<char>::empty());
    }
    while i < n
        invariant
            0 <= i <= n,
            n == s@.len(),
            out@ == old(out)@ + spec_escape_str(s@.take(i as int)),
        decreases n - i,
    {
        let c = s.get_char(i);
        push_escaped_in_str(out, c);
        proof {
            lemma_escape_str_snoc(s@, i as int);
            assert((old(out)@ + spec_escape_str(s@.take(i as int))) + spec_escaped_in_str(s@[
            i as int]) =~= old(out)@ + (spec_escape_str(s@.take(i as int)) + spec_escaped_in_str(s@[
            i as int])));
        }
        i += 1;
    }
    proof {
        assert(s@.take(n as int) =~= s@);
    }
}

proof fn lemma_escape_str_snoc(s: Seq<char>, i: int)
    requires
        0 <= i < s.len(),
    ensures
        spec_escape_str(s.take(i + 1)) == spec_escape_str(s.take(i)) + spec_escaped_in_str(s[i]),
    decreases i,
{
    if i == 0 {
        assert(s.take(1).skip(1) =~= Seq::<char>::empty());
        assert(s.take(1)[0] == s[0]);
        assert(spec_escape_str(Seq::<char>::empty()) =~= Seq::<char>::empty());
        assert(spec_escape_str(s.take(1)) == spec_escaped_in_str(s[0]) + Seq::<char>::empty());
        assert(spec_escaped_in_str(s[0]) + Seq::<char>::empty() =~= spec_escaped_in_str(s[0]));
        assert(spec_escape_str(s.take(0)) =~= Seq::<char>::empty());
        assert(Seq::<char>::empty() + spec_escaped_in_str(s[0]) =~= spec_escaped_in_str(s[0]));
    } else {
        lemma_escape_str_snoc(s.skip(1), i - 1);
        assert(s.take(i + 1).skip(1) =~= s.skip(1).take(i));
        assert(s.take(i).skip(1) =~= s.skip(1).take(i - 1));
        assert(s.take(i + 1)[0] == s[0]);
        assert(s.take(i)[0] == s[0]);
        assert(s.skip(1)[i - 1] == s[i]);
        assert(spec_escape_str(s.take(i + 1)) == spec_escaped_in_str(s[0]) + spec_escape_str(
            s.skip(1).take(i),
        ));
        assert(spec_escape_str(s.take(i)) == spec_escaped_in_str(s[0]) + spec_escape_str(
            s.skip(1).take(i - 1),
        ));
        assert(spec_escaped_in_str(s[0]) + (spec_escape_str(s.skip(1).take(i - 1))
            + spec_escaped_in_str(s[i])) =~= (spec_escaped_in_str(s[0]) + spec_escape_str(
            s.skip(1).take(i - 1),
        )) + spec_escaped_in_str(s[i]));
    }
}


/// Whether a driver invocation should intercept the crate it is building:
/// a crate built as a mere workspace dependency under the cargo wrapper is
/// passed through, and only builds for an explicit target are intercepted,
/// since host builds serve build scripts and procedural macros.
pub fn is_selected_crate(using_cargo: bool, is_primary_package: bool, is_target: bool) -> (r: bool)
    ensures
        r == (!(using_cargo && !is_primary_package) && is_target),
{
    let is_workspace_dependency = using_cargo && !is_primary_package;
    !is_workspace_dependency && is_target
}

/// Character-for-character equality of two string slices.
pub fn str_eq_str(a: &str, b: &str) -> (r: bool)
    ensures
        r == (a@ == b@),
{
    let na = a.unicode_len();
    let nb = b.unicode_len();
    if na != nb {
        proof {
            assert(a@ != b@);
        }
        return false;
    }
    let mut i: usize = 0;
    while i < na
        invariant
            0 <= i <= na,
            na == a@.len(),
            na == b@.len(),
            forall|j: int| 0 <= j < i ==> a@[j] == b@[j],
        decreases na - i,
    {
        if a.get_char(i) != b.get_char(i) {
            return false;
        }
        i += 1;
    }
    proof {
        assert(a@ =~= b@);
    }
    true
}

} // verus!
