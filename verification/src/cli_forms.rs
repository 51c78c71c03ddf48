//! The two forms of a valued option, `--name value` and `--name=value`,
//! read alike.
use vstd::prelude::*;
use crate::cli::{
    book_scan_errors, book_scan_parsed, book_scan_reals, book_scan_settings, lemma_option_index_range,
    number_check, number_errors_upto, number_option, switch_errors_upto,
    switch_option, toggle_check, value_errors, CliArgs, NUMBER_COUNT, SWITCH_COUNT,
    arg_errors, arg_name, name_errors, option_index, option_value_of, pair_value_from, prefixed_value_from,
    book_option, BookOptionArity, BOOK_OPTION_COUNT,
};
use crate::text::{has_prefix, lemma_first_index};

verus! {

/// `n` looks like an option name: it starts with `--` and holds no `=`.
pub open spec fn option_like(n: Seq<char>) -> bool {
    has_prefix(n, "--"@) && !n.contains('=')
}

/// The arguments with option `name` given as the two arguments `name` and
/// `v`, between `p` and `q`.
pub open spec fn two_token_form(p: Seq<Seq<char>>, name: Seq<char>, v: Seq<char>, q: Seq<Seq<char>>) -> Seq<
    Seq<char>,
> {
    p + seq![name, v] + q
}

/// The same arguments with the option given as the one argument `name=v`.
pub open spec fn one_token_form(p: Seq<Seq<char>>, name: Seq<char>, v: Seq<char>, q: Seq<Seq<char>>) -> Seq<
    Seq<char>,
> {
    p + seq![name + "="@ + v] + q
}

/// `name` is not one of `args`.
pub open spec fn not_given(args: Seq<Seq<char>>, name: Seq<char>) -> bool {
    forall|j: int| 0 <= j < args.len() ==> #[trigger] args[j] != name
}

/// `name` occurs nowhere in `args`, neither alone nor as `name=…`.
pub open spec fn absent(args: Seq<Seq<char>>, name: Seq<char>) -> bool {
    forall|j: int| 0 <= j < args.len() ==> #[trigger] args[j] != name && !has_prefix(args[j], name + "="@)
}

proof fn lemma_eq_text()
    ensures
        "="@ == seq!['='],
        "--"@ == seq!['-', '-'],
{
    reveal_strlit("=");
    reveal_strlit("--");
}

/// Text holding `=` at index `i` is not option-like.
proof fn lemma_holds_eq(s: Seq<char>, i: int)
    requires
        0 <= i < s.len(),
        s[i] == '=',
    ensures
        s.contains('='),
{
}

/// `name=v` holds `=` just after `name`.
proof fn lemma_joined_arg(name: Seq<char>, v: Seq<char>)
    ensures
        (name + "="@ + v).len() == name.len() + 1 + v.len(),
        (name + "="@ + v)[name.len() as int] == '=',
        (name + "="@ + v).take(name.len() as int) == name,
        (name + "="@ + v).skip(name.len() as int + 1) == v,
        has_prefix(name + "="@ + v, name + "="@),
        (name + "="@ + v).contains('='),
{
    lemma_eq_text();
    let t = name + "="@ + v;
    assert(t.take(name.len() as int) =~= name);
    assert(t.skip(name.len() as int + 1) =~= v);
    assert(t.take((name + "="@).len() as int) =~= name + "="@);
    lemma_holds_eq(t, name.len() as int);
}

/// What starts with `n=` for an option-like `n` starts with `--` and holds
/// `=`.
proof fn lemma_prefix_eq(s: Seq<char>, n: Seq<char>)
    requires
        has_prefix(n, "--"@),
        has_prefix(s, n + "="@),
    ensures
        has_prefix(s, "--"@),
        s.contains('='),
        s.len() > n.len(),
        s[n.len() as int] == '=',
{
    lemma_eq_text();
    let pre = n + "="@;
    assert(s.take(pre.len() as int)[n.len() as int] == pre[n.len() as int]);
    assert(s.take(2) =~= "--"@) by {
        assert(forall|i: int| 0 <= i < 2 ==> s.take(2)[i] == s.take(pre.len() as int)[i]);
        assert(forall|i: int| 0 <= i < 2 ==> n.take(2)[i] == n[i]);
    }
    lemma_holds_eq(s, n.len() as int);
}

/// An option-like name differs from `name=v`, from a value that does not
/// start with `--`, and neither starts another option-like name followed by
/// `=` nor `name=v` for another option-like `name`.
proof fn lemma_distinct(n: Seq<char>, name: Seq<char>, v: Seq<char>)
    requires
        option_like(n),
        option_like(name),
        !has_prefix(v, "--"@),
    ensures
        n != name + "="@ + v,
        n != v,
        !has_prefix(v, n + "="@),
        !has_prefix(name, n + "="@),
        n != name ==> !has_prefix(name + "="@ + v, n + "="@),
{
    lemma_joined_arg(name, v);
    if has_prefix(v, n + "="@) {
        lemma_prefix_eq(v, n);
    }
    if has_prefix(name, n + "="@) {
        lemma_prefix_eq(name, n);
    }
    let t = name + "="@ + v;
    if n != name && has_prefix(t, n + "="@) {
        lemma_prefix_eq(t, n);
        if n.len() < name.len() {
            assert(t[n.len() as int] == name[n.len() as int]);
            lemma_holds_eq(name, n.len() as int);
        } else if n.len() == name.len() {
            assert(t.take((n + "="@).len() as int).take(n.len() as int) =~= t.take(n.len() as int));
            assert(forall|i: int| 0 <= i < n.len() ==> (n + "="@)[i] == n[i]);
            assert(n =~= t.take(n.len() as int));
        } else {
            assert(t.take((n + "="@).len() as int)[name.len() as int] == (n + "="@)[name.len() as int]);
            assert((n + "="@)[name.len() as int] == n[name.len() as int]);
            lemma_holds_eq(n, name.len() as int);
        }
    }
}


// ---------------------------------------------------------------------
// Reading values over the two forms

proof fn lemma_pair_shift(a1: Seq<Seq<char>>, a2: Seq<Seq<char>>, n: Seq<char>, i1: int, i2: int)
    requires
        0 <= i1 <= a1.len(),
        0 <= i2 <= a2.len(),
        a1.len() - i1 == a2.len() - i2,
        forall|d: int| 0 <= d < a1.len() - i1 ==> #[trigger] a1[i1 + d] == a2[i2 + d],
    ensures
        pair_value_from(a1, n, i1) == pair_value_from(a2, n, i2),
    decreases a1.len() - i1,
{
    if i1 + 1 < a1.len() {
        assert(a1[i1 + 0] == a2[i2 + 0]);
        assert(a1[i1 + 1] == a2[i2 + 1]);
        assert forall|d: int| 0 <= d < a1.len() - (i1 + 1) implies #[trigger] a1[(i1 + 1) + d] == a2[(i2 + 1)
            + d] by {
            assert(a1[i1 + (d + 1)] == a2[i2 + (d + 1)]);
        }
        lemma_pair_shift(a1, a2, n, i1 + 1, i2 + 1);
    }
}

proof fn lemma_prefixed_shift(a1: Seq<Seq<char>>, a2: Seq<Seq<char>>, pre: Seq<char>, i1: int, i2: int)
    requires
        0 <= i1 <= a1.len(),
        0 <= i2 <= a2.len(),
        a1.len() - i1 == a2.len() - i2,
        forall|d: int| 0 <= d < a1.len() - i1 ==> #[trigger] a1[i1 + d] == a2[i2 + d],
    ensures
        prefixed_value_from(a1, pre, i1) == prefixed_value_from(a2, pre, i2),
    decreases a1.len() - i1,
{
    if i1 < a1.len() {
        assert(a1[i1 + 0] == a2[i2 + 0]);
        assert forall|d: int| 0 <= d < a1.len() - (i1 + 1) implies #[trigger] a1[(i1 + 1) + d] == a2[(i2 + 1)
            + d] by {
            assert(a1[i1 + (d + 1)] == a2[i2 + (d + 1)]);
        }
        lemma_prefixed_shift(a1, a2, pre, i1 + 1, i2 + 1);
    }
}

proof fn lemma_pair_front(a1: Seq<Seq<char>>, a2: Seq<Seq<char>>, n: Seq<char>, m: int, i: int)
    requires
        0 <= i <= m,
        m < a1.len(),
        m < a2.len(),
        forall|j: int| 0 <= j < m ==> #[trigger] a1[j] == a2[j],
        has_prefix(a1[m], "--"@),
        has_prefix(a2[m], "--"@),
        pair_value_from(a1, n, m) == pair_value_from(a2, n, m),
    ensures
        pair_value_from(a1, n, i) == pair_value_from(a2, n, i),
    decreases m - i,
{
    if i < m {
        lemma_pair_front(a1, a2, n, m, i + 1);
        assert(a1[i] == a2[i]);
        if i + 1 < m {
            assert(a1[i + 1] == a2[i + 1]);
        }
    }
}

proof fn lemma_prefixed_front(a1: Seq<Seq<char>>, a2: Seq<Seq<char>>, pre: Seq<char>, m: int, i: int)
    requires
        0 <= i <= m,
        m <= a1.len(),
        m <= a2.len(),
        forall|j: int| 0 <= j < m ==> #[trigger] a1[j] == a2[j],
        prefixed_value_from(a1, pre, m) == prefixed_value_from(a2, pre, m),
    ensures
        prefixed_value_from(a1, pre, i) == prefixed_value_from(a2, pre, i),
    decreases m - i,
{
    if i < m {
        lemma_prefixed_front(a1, a2, pre, m, i + 1);
        assert(a1[i] == a2[i]);
    }
}

proof fn lemma_pair_skip(a: Seq<Seq<char>>, n: Seq<char>, i: int, m: int)
    requires
        0 <= i <= m,
        forall|j: int| i <= j < m ==> #[trigger] a[j] != n,
    ensures
        pair_value_from(a, n, i) == pair_value_from(a, n, m),
    decreases m - i,
{
    if i < m {
        lemma_pair_skip(a, n, i + 1, m);
        if i + 1 >= a.len() {
            lemma_pair_past(a, n, m);
        }
    }
}

proof fn lemma_pair_past(a: Seq<Seq<char>>, n: Seq<char>, i: int)
    requires
        i + 1 >= a.len(),
    ensures
        pair_value_from(a, n, i) is None,
{
}

proof fn lemma_pair_none(a: Seq<Seq<char>>, n: Seq<char>, i: int)
    requires
        0 <= i,
        forall|j: int| 0 <= j < a.len() ==> #[trigger] a[j] != n,
    ensures
        pair_value_from(a, n, i) is None,
    decreases a.len() - i,
{
    if i + 1 < a.len() {
        assert(a[i] != n);
        lemma_pair_none(a, n, i + 1);
    }
}

proof fn lemma_prefixed_skip(a: Seq<Seq<char>>, pre: Seq<char>, i: int, m: int)
    requires
        0 <= i <= m <= a.len(),
        forall|j: int| i <= j < m ==> !has_prefix(#[trigger] a[j], pre),
    ensures
        prefixed_value_from(a, pre, i) == prefixed_value_from(a, pre, m),
    decreases m - i,
{
    if i < m {
        lemma_prefixed_skip(a, pre, i + 1, m);
    }
}

proof fn lemma_form_layout(p: Seq<Seq<char>>, name: Seq<char>, v: Seq<char>, q: Seq<Seq<char>>)
    ensures
        two_token_form(p, name, v, q).len() == p.len() + 2 + q.len(),
        one_token_form(p, name, v, q).len() == p.len() + 1 + q.len(),
        forall|j: int| 0 <= j < p.len() ==> #[trigger] two_token_form(p, name, v, q)[j] == p[j]
            && one_token_form(p, name, v, q)[j] == p[j],
        two_token_form(p, name, v, q)[p.len() as int] == name,
        two_token_form(p, name, v, q)[p.len() as int + 1] == v,
        one_token_form(p, name, v, q)[p.len() as int] == name + "="@ + v,
        forall|d: int| 0 <= d < q.len() ==> #[trigger] two_token_form(p, name, v, q)[(p.len() as int + 2) + d] == q[d]
            && one_token_form(p, name, v, q)[(p.len() as int + 1) + d] == q[d],
{
}

#[verifier::rlimit(40)]
proof fn lemma_value_of_name(p: Seq<Seq<char>>, name: Seq<char>, v: Seq<char>, q: Seq<Seq<char>>)
    requires
        option_like(name),
        !has_prefix(v, "--"@),
        absent(p, name),
        not_given(q, name),
    ensures
        option_value_of(two_token_form(p, name, v, q), name) == Some(v),
        option_value_of(one_token_form(p, name, v, q), name) == Some(v),
{
    let a1 = two_token_form(p, name, v, q);
    let a2 = one_token_form(p, name, v, q);
    let t = name + "="@ + v;
    let m = p.len() as int;
    lemma_joined_arg(name, v);
    lemma_form_layout(p, name, v, q);
    assert forall|j: int| 0 <= j < m implies #[trigger] a1[j] != name by {
        assert(p[j] != name);
    }
    lemma_pair_skip(a1, name, 0, m);
    assert(pair_value_from(a1, name, m) == Some(v));
    assert(t != name);
    assert forall|j: int| 0 <= j < a2.len() implies #[trigger] a2[j] != name by {
        if j < m {
            assert(p[j] != name);
        } else if j > m {
            assert(a2[(m + 1) + (j - m - 1)] == q[j - m - 1]);
            assert(q[j - m - 1] != name);
        }
    }
    lemma_pair_none(a2, name, 0);
    let pre = name + "="@;
    assert forall|j: int| 0 <= j < m implies !has_prefix(#[trigger] a2[j], pre) by {
        assert(a2[j] == p[j]);
    }
    lemma_prefixed_skip(a2, pre, 0, m);
    assert(pre.len() == name.len() + 1);
    assert(prefixed_value_from(a2, pre, m) == Some(v));
}

#[verifier::rlimit(40)]
proof fn lemma_value_of_other(p: Seq<Seq<char>>, name: Seq<char>, v: Seq<char>, q: Seq<Seq<char>>, n: Seq<char>)
    requires
        option_like(name),
        option_like(n),
        n != name,
        !has_prefix(v, "--"@),
    ensures
        option_value_of(two_token_form(p, name, v, q), n) == option_value_of(one_token_form(p, name, v, q), n),
{
    let a1 = two_token_form(p, name, v, q);
    let a2 = one_token_form(p, name, v, q);
    let t = name + "="@ + v;
    let m = p.len() as int;
    lemma_joined_arg(name, v);
    lemma_distinct(n, name, v);
    lemma_prefix_eq(t, name);
    lemma_form_layout(p, name, v, q);
    assert(pair_value_from(a1, n, m) == pair_value_from(a1, n, m + 1));
    assert(pair_value_from(a1, n, m + 1) == pair_value_from(a1, n, m + 2));
    assert(pair_value_from(a2, n, m) == pair_value_from(a2, n, m + 1));
    assert forall|d: int| 0 <= d < a1.len() - (m + 2) implies #[trigger] a1[(m + 2) + d] == a2[(m + 1) + d] by {
        assert(a1[(m + 2) + d] == q[d]);
        assert(a2[(m + 1) + d] == q[d]);
    }
    lemma_pair_shift(a1, a2, n, m + 2, m + 1);
    lemma_pair_front(a1, a2, n, m, 0);
    let pre = n + "="@;
    assert(prefixed_value_from(a1, pre, m) == prefixed_value_from(a1, pre, m + 1));
    assert(prefixed_value_from(a1, pre, m + 1) == prefixed_value_from(a1, pre, m + 2));
    assert(prefixed_value_from(a2, pre, m) == prefixed_value_from(a2, pre, m + 1));
    lemma_prefixed_shift(a1, a2, pre, m + 2, m + 1);
    lemma_prefixed_front(a1, a2, pre, m, 0);
}

/// Every option-like name reads the same value whether option `name` is
/// given as `name value` or as `name=value` (`value` not starting with
/// `--`, `name` not given before in either form nor after as `name`);
/// `name` itself reads `value`.
pub proof fn lemma_option_value_forms(
    p: Seq<Seq<char>>,
    name: Seq<char>,
    v: Seq<char>,
    q: Seq<Seq<char>>,
    n: Seq<char>,
)
    requires
        option_like(name),
        option_like(n),
        !has_prefix(v, "--"@),
        absent(p, name),
        not_given(q, name),
    ensures
        option_value_of(two_token_form(p, name, v, q), n) == option_value_of(one_token_form(p, name, v, q), n),
        n == name ==> option_value_of(two_token_form(p, name, v, q), n) == Some(v),
{
    if n == name {
        lemma_value_of_name(p, name, v, q);
    } else {
        lemma_value_of_other(p, name, v, q, n);
    }
}

/// A flag or other option-like argument other than `name` is given in the
/// one form exactly when it is given in the other.
#[verifier::rlimit(40)]
pub proof fn lemma_contains_forms(p: Seq<Seq<char>>, name: Seq<char>, v: Seq<char>, q: Seq<Seq<char>>, s: Seq<char>)
    requires
        option_like(name),
        option_like(s),
        s != name,
        !has_prefix(v, "--"@),
    ensures
        two_token_form(p, name, v, q).contains(s) == one_token_form(p, name, v, q).contains(s),
{
    let a1 = two_token_form(p, name, v, q);
    let a2 = one_token_form(p, name, v, q);
    let m = p.len() as int;
    lemma_joined_arg(name, v);
    lemma_distinct(s, name, v);
    lemma_form_layout(p, name, v, q);
    if a1.contains(s) {
        let j = choose|j: int| 0 <= j < a1.len() && a1[j] == s;
        if j < m {
            assert(a2[j] == s);
        } else if j >= m + 2 {
            let d = j - (m + 2);
            assert(a1[(m + 2) + d] == q[d]);
            assert(a2[(m + 1) + d] == q[d]);
        }
        assert(a2.contains(s));
    }
    if a2.contains(s) {
        let j = choose|j: int| 0 <= j < a2.len() && a2[j] == s;
        if j < m {
            assert(a1[j] == s);
        } else if j > m {
            let d = j - (m + 1);
            assert(a1[(m + 2) + d] == q[d]);
            assert(a2[(m + 1) + d] == q[d]);
        }
        assert(a1.contains(s));
    }
}


// ---------------------------------------------------------------------
// Complaints about the arguments over the two forms

proof fn lemma_arg_name_plain(s: Seq<char>)
    requires
        !s.contains('='),
    ensures
        arg_name(s) == s,
{
    assert forall|j: int| 0 <= j < s.len() implies s[j] != '=' by {
        if s[j] == '=' {
            lemma_holds_eq(s, j);
        }
    }
    lemma_first_index(s, '=', s.len() as int);
}

proof fn lemma_arg_name_joined(name: Seq<char>, v: Seq<char>)
    requires
        !name.contains('='),
    ensures
        arg_name(name + "="@ + v) == name,
{
    let t = name + "="@ + v;
    lemma_joined_arg(name, v);
    assert forall|j: int| 0 <= j < name.len() implies t[j] != '=' by {
        assert(t[j] == name[j]);
        if name[j] == '=' {
            lemma_holds_eq(name, j);
        }
    }
    lemma_first_index(t, '=', name.len() as int);
}

proof fn lemma_name_errors_front(a1: Seq<Seq<char>>, a2: Seq<Seq<char>>, m: int, i: int)
    requires
        0 <= i <= m,
        m < a1.len(),
        m < a2.len(),
        forall|j: int| 0 <= j < m ==> #[trigger] a1[j] == a2[j],
        has_prefix(a1[m], "--"@),
        has_prefix(a2[m], "--"@),
    ensures
        name_errors(a1, i) == name_errors(a2, i),
    decreases i,
{
    if i > 0 {
        lemma_name_errors_front(a1, a2, m, i - 1);
        assert(a1[i - 1] == a2[i - 1]);
        if i < m {
            assert(a1[i] == a2[i]);
        }
        assert(arg_errors(a1, i - 1) == arg_errors(a2, i - 1));
    }
}

proof fn lemma_name_errors_tail(a1: Seq<Seq<char>>, a2: Seq<Seq<char>>, i1: int, i2: int, j: int)
    requires
        0 <= i1,
        0 <= i2,
        0 <= j <= a1.len() - i1,
        a1.len() - i1 == a2.len() - i2,
        forall|d: int| 0 <= d < a1.len() - i1 ==> #[trigger] a1[i1 + d] == a2[i2 + d],
        name_errors(a1, i1) == name_errors(a2, i2),
    ensures
        name_errors(a1, i1 + j) == name_errors(a2, i2 + j),
    decreases j,
{
    if j > 0 {
        lemma_name_errors_tail(a1, a2, i1, i2, j - 1);
        assert(a1[i1 + (j - 1)] == a2[i2 + (j - 1)]);
        if i1 + j < a1.len() {
            assert(a1[i1 + j] == a2[i2 + j]);
        }
        assert(arg_errors(a1, i1 + j - 1) == arg_errors(a2, i2 + j - 1));
    }
}

/// The complaints about the arguments are the same in both forms, for a
/// valued option `name` of the table.
#[verifier::rlimit(80)]
#[verifier::spinoff_prover]
pub proof fn lemma_name_errors_forms(p: Seq<Seq<char>>, name: Seq<char>, v: Seq<char>, q: Seq<Seq<char>>)
    requires
        option_like(name),
        option_index(name) matches Some(k) && book_option(k).arity == BookOptionArity::Value,
        !has_prefix(v, "--"@),
    ensures
        name_errors(two_token_form(p, name, v, q), two_token_form(p, name, v, q).len() as int)
            == name_errors(one_token_form(p, name, v, q), one_token_form(p, name, v, q).len() as int),
{
    let a1 = two_token_form(p, name, v, q);
    let a2 = one_token_form(p, name, v, q);
    let t = name + "="@ + v;
    let m = p.len() as int;
    lemma_joined_arg(name, v);
    lemma_prefix_eq(t, name);
    lemma_arg_name_plain(name);
    lemma_arg_name_joined(name, v);
    assert(a1.len() == m + 2 + q.len());
    assert(a2.len() == m + 1 + q.len());
    assert(forall|j: int| 0 <= j < m ==> #[trigger] a1[j] == p[j] && a2[j] == p[j]);
    assert(a1[m] == name && a1[m + 1] == v && a2[m] == t);
    lemma_name_errors_front(a1, a2, m, m);
    assert(arg_errors(a1, m) =~= Seq::<Seq<char>>::empty());
    assert(arg_errors(a1, m + 1) =~= Seq::<Seq<char>>::empty());
    assert(arg_errors(a2, m) =~= Seq::<Seq<char>>::empty());
    assert(name_errors(a1, m + 2) == name_errors(a1, m + 1) + arg_errors(a1, m + 1));
    assert(name_errors(a1, m + 1) == name_errors(a1, m) + arg_errors(a1, m));
    assert(name_errors(a2, m + 1) == name_errors(a2, m) + arg_errors(a2, m));
    assert(name_errors(a1, m + 2) =~= name_errors(a2, m + 1));
    assert forall|d: int| 0 <= d < a1.len() - (m + 2) implies #[trigger] a1[(m + 2) + d] == a2[(m + 1) + d] by {
        assert(a1[(m + 2) + d] == q[d]);
        assert(a2[(m + 1) + d] == q[d]);
    }
    lemma_name_errors_tail(a1, a2, m + 2, m + 1, q.len() as int);
}


// ---------------------------------------------------------------------
// The option names of the table

proof fn lemma_dashes(s: Seq<char>)
    requires
        s.len() >= 2,
        s[0] == '-',
        s[1] == '-',
    ensures
        has_prefix(s, "--"@),
{
    reveal_strlit("--");
    assert(s.take(2) =~= "--"@);
}

/// A valued option's name: neither `--no-…` nor `--k…`, the shapes of the
/// flags and of `--keep-work`.
pub open spec fn valued_shape(n: Seq<char>) -> bool {
    n.len() >= 5 && n[2] != 'k' && !(n[2] == 'n' && n[3] == 'o' && n[4] == '-')
}
proof fn lemma_table_names_0()
    ensures
        option_like("--pages"@),
        option_like("--work-dir"@),
        option_like("--resume"@),
        option_like("--keep-work"@),
        option_like("--blank-detection"@),
        option_like("--blank-dark-delta"@),
        option_like("--blank-max-dark-ratio"@),
        option_like("--blank-edge-threshold"@),
        option_like("--blank-max-edge-ratio"@),
        option_like("--scantailor"@),
        option_like("--crop"@),
        option_like("--crop-exclude-pages"@),
        option_like("--normalize"@),
        option_like("--color-normalize"@),
        option_like("--color-normalize-strength"@),
        option_like("--color-normalize-radius"@),
{
    reveal_strlit("--pages");
    lemma_dashes("--pages"@);
    reveal_strlit("--work-dir");
    lemma_dashes("--work-dir"@);
    reveal_strlit("--resume");
    lemma_dashes("--resume"@);
    reveal_strlit("--keep-work");
    lemma_dashes("--keep-work"@);
    reveal_strlit("--blank-detection");
    lemma_dashes("--blank-detection"@);
    reveal_strlit("--blank-dark-delta");
    lemma_dashes("--blank-dark-delta"@);
    reveal_strlit("--blank-max-dark-ratio");
    lemma_dashes("--blank-max-dark-ratio"@);
    reveal_strlit("--blank-edge-threshold");
    lemma_dashes("--blank-edge-threshold"@);
    reveal_strlit("--blank-max-edge-ratio");
    lemma_dashes("--blank-max-edge-ratio"@);
    reveal_strlit("--scantailor");
    lemma_dashes("--scantailor"@);
    reveal_strlit("--crop");
    lemma_dashes("--crop"@);
    reveal_strlit("--crop-exclude-pages");
    lemma_dashes("--crop-exclude-pages"@);
    reveal_strlit("--normalize");
    lemma_dashes("--normalize"@);
    reveal_strlit("--color-normalize");
    lemma_dashes("--color-normalize"@);
    reveal_strlit("--color-normalize-strength");
    lemma_dashes("--color-normalize-strength"@);
    reveal_strlit("--color-normalize-radius");
    lemma_dashes("--color-normalize-radius"@);
}

proof fn lemma_table_names_1()
    ensures
        option_like("--ink-neutralize"@),
        option_like("--ink-neutralize-strength"@),
        option_like("--ink-neutralize-exclude-pages"@),
        option_like("--deskew"@),
        option_like("--dewarp"@),
        option_like("--margins"@),
        option_like("--dpi"@),
        option_like("--output-dpi"@),
        option_like("--despeckle"@),
        option_like("--page-detection-tolerance"@),
        option_like("--scantailor-path"@),
        option_like("--superres"@),
        option_like("--output-scale"@),
        option_like("--ai-scale"@),
        option_like("--scale"@),
        option_like("--inference-scale"@),
{
    reveal_strlit("--ink-neutralize");
    lemma_dashes("--ink-neutralize"@);
    reveal_strlit("--ink-neutralize-strength");
    lemma_dashes("--ink-neutralize-strength"@);
    reveal_strlit("--ink-neutralize-exclude-pages");
    lemma_dashes("--ink-neutralize-exclude-pages"@);
    reveal_strlit("--deskew");
    lemma_dashes("--deskew"@);
    reveal_strlit("--dewarp");
    lemma_dashes("--dewarp"@);
    reveal_strlit("--margins");
    lemma_dashes("--margins"@);
    reveal_strlit("--dpi");
    lemma_dashes("--dpi"@);
    reveal_strlit("--output-dpi");
    lemma_dashes("--output-dpi"@);
    reveal_strlit("--despeckle");
    lemma_dashes("--despeckle"@);
    reveal_strlit("--page-detection-tolerance");
    lemma_dashes("--page-detection-tolerance"@);
    reveal_strlit("--scantailor-path");
    lemma_dashes("--scantailor-path"@);
    reveal_strlit("--superres");
    lemma_dashes("--superres"@);
    reveal_strlit("--output-scale");
    lemma_dashes("--output-scale"@);
    reveal_strlit("--ai-scale");
    lemma_dashes("--ai-scale"@);
    reveal_strlit("--scale");
    lemma_dashes("--scale"@);
    reveal_strlit("--inference-scale");
    lemma_dashes("--inference-scale"@);
}

proof fn lemma_table_names_2()
    ensures
        option_like("--model"@),
        option_like("--gpu-workers"@),
        option_like("--cpu-workers"@),
        option_like("--tile"@),
        option_like("--gpu-id"@),
        option_like("--tta"@),
        option_like("--realesrgan-path"@),
        option_like("--model-dir"@),
        option_like("--pre-stroke"@),
        option_like("--pre-stroke-strength"@),
        option_like("--tone-boost"@),
        option_like("--tone-boost-strength"@),
        option_like("--stroke"@),
        option_like("--stroke-strength"@),
        option_like("--tone-color-global-threshold"@),
        option_like("--tone-color-tile-threshold"@),
{
    reveal_strlit("--model");
    lemma_dashes("--model"@);
    reveal_strlit("--gpu-workers");
    lemma_dashes("--gpu-workers"@);
    reveal_strlit("--cpu-workers");
    lemma_dashes("--cpu-workers"@);
    reveal_strlit("--tile");
    lemma_dashes("--tile"@);
    reveal_strlit("--gpu-id");
    lemma_dashes("--gpu-id"@);
    reveal_strlit("--tta");
    lemma_dashes("--tta"@);
    reveal_strlit("--realesrgan-path");
    lemma_dashes("--realesrgan-path"@);
    reveal_strlit("--model-dir");
    lemma_dashes("--model-dir"@);
    reveal_strlit("--pre-stroke");
    lemma_dashes("--pre-stroke"@);
    reveal_strlit("--pre-stroke-strength");
    lemma_dashes("--pre-stroke-strength"@);
    reveal_strlit("--tone-boost");
    lemma_dashes("--tone-boost"@);
    reveal_strlit("--tone-boost-strength");
    lemma_dashes("--tone-boost-strength"@);
    reveal_strlit("--stroke");
    lemma_dashes("--stroke"@);
    reveal_strlit("--stroke-strength");
    lemma_dashes("--stroke-strength"@);
    reveal_strlit("--tone-color-global-threshold");
    lemma_dashes("--tone-color-global-threshold"@);
    reveal_strlit("--tone-color-tile-threshold");
    lemma_dashes("--tone-color-tile-threshold"@);
}

proof fn lemma_table_names_3()
    ensures
        option_like("--tone-exclude-pages"@),
        option_like("--grayscale-pages"@),
        option_like("--jpeg-quality"@),
        option_like("--jpeg-sampling"@),
        option_like("--preserve-position"@),
        option_like("--no-scantailor"@),
        option_like("--no-blank-detection"@),
        option_like("--no-crop"@),
        option_like("--no-normalize"@),
        option_like("--no-color-normalize"@),
        option_like("--no-ink-neutralize"@),
        option_like("--no-tone-boost"@),
        option_like("--no-stroke"@),
        option_like("--no-resume"@),
        option_like("--max-performance"@),
        option_like("--no-max-performance"@),
        "--no-scantailor"@.len() >= 5 && ("--no-scantailor"@[2] == 'k' || ("--no-scantailor"@[2] == 'n' && "--no-scantailor"@[3] == 'o' && "--no-scantailor"@[4] == '-')),
        "--no-blank-detection"@.len() >= 5 && ("--no-blank-detection"@[2] == 'k' || ("--no-blank-detection"@[2] == 'n' && "--no-blank-detection"@[3] == 'o' && "--no-blank-detection"@[4] == '-')),
        "--no-crop"@.len() >= 5 && ("--no-crop"@[2] == 'k' || ("--no-crop"@[2] == 'n' && "--no-crop"@[3] == 'o' && "--no-crop"@[4] == '-')),
        "--no-normalize"@.len() >= 5 && ("--no-normalize"@[2] == 'k' || ("--no-normalize"@[2] == 'n' && "--no-normalize"@[3] == 'o' && "--no-normalize"@[4] == '-')),
        "--no-color-normalize"@.len() >= 5 && ("--no-color-normalize"@[2] == 'k' || ("--no-color-normalize"@[2] == 'n' && "--no-color-normalize"@[3] == 'o' && "--no-color-normalize"@[4] == '-')),
        "--no-ink-neutralize"@.len() >= 5 && ("--no-ink-neutralize"@[2] == 'k' || ("--no-ink-neutralize"@[2] == 'n' && "--no-ink-neutralize"@[3] == 'o' && "--no-ink-neutralize"@[4] == '-')),
        "--no-stroke"@.len() >= 5 && ("--no-stroke"@[2] == 'k' || ("--no-stroke"@[2] == 'n' && "--no-stroke"@[3] == 'o' && "--no-stroke"@[4] == '-')),
        "--no-tone-boost"@.len() >= 5 && ("--no-tone-boost"@[2] == 'k' || ("--no-tone-boost"@[2] == 'n' && "--no-tone-boost"@[3] == 'o' && "--no-tone-boost"@[4] == '-')),
        "--no-resume"@.len() >= 5 && ("--no-resume"@[2] == 'k' || ("--no-resume"@[2] == 'n' && "--no-resume"@[3] == 'o' && "--no-resume"@[4] == '-')),
        "--no-max-performance"@.len() >= 5 && ("--no-max-performance"@[2] == 'k' || ("--no-max-performance"@[2] == 'n' && "--no-max-performance"@[3] == 'o' && "--no-max-performance"@[4] == '-')),
        "--keep-work"@.len() >= 5 && ("--keep-work"@[2] == 'k' || ("--keep-work"@[2] == 'n' && "--keep-work"@[3] == 'o' && "--keep-work"@[4] == '-')),
{
    reveal_strlit("--tone-exclude-pages");
    lemma_dashes("--tone-exclude-pages"@);
    reveal_strlit("--grayscale-pages");
    lemma_dashes("--grayscale-pages"@);
    reveal_strlit("--jpeg-quality");
    lemma_dashes("--jpeg-quality"@);
    reveal_strlit("--jpeg-sampling");
    lemma_dashes("--jpeg-sampling"@);
    reveal_strlit("--preserve-position");
    lemma_dashes("--preserve-position"@);
    reveal_strlit("--no-scantailor");
    lemma_dashes("--no-scantailor"@);
    reveal_strlit("--no-blank-detection");
    lemma_dashes("--no-blank-detection"@);
    reveal_strlit("--no-crop");
    lemma_dashes("--no-crop"@);
    reveal_strlit("--no-normalize");
    lemma_dashes("--no-normalize"@);
    reveal_strlit("--no-color-normalize");
    lemma_dashes("--no-color-normalize"@);
    reveal_strlit("--no-ink-neutralize");
    lemma_dashes("--no-ink-neutralize"@);
    reveal_strlit("--no-tone-boost");
    lemma_dashes("--no-tone-boost"@);
    reveal_strlit("--no-stroke");
    lemma_dashes("--no-stroke"@);
    reveal_strlit("--no-resume");
    lemma_dashes("--no-resume"@);
    reveal_strlit("--max-performance");
    lemma_dashes("--max-performance"@);
    reveal_strlit("--no-max-performance");
    lemma_dashes("--no-max-performance"@);
    reveal_strlit("--keep-work");
}

/// Every option name of the table is option-like.
proof fn lemma_table_names()
    ensures
        option_like("--pages"@),
        option_like("--work-dir"@),
        option_like("--resume"@),
        option_like("--keep-work"@),
        option_like("--blank-detection"@),
        option_like("--blank-dark-delta"@),
        option_like("--blank-max-dark-ratio"@),
        option_like("--blank-edge-threshold"@),
        option_like("--blank-max-edge-ratio"@),
        option_like("--scantailor"@),
        option_like("--crop"@),
        option_like("--crop-exclude-pages"@),
        option_like("--normalize"@),
        option_like("--color-normalize"@),
        option_like("--color-normalize-strength"@),
        option_like("--color-normalize-radius"@),
        option_like("--ink-neutralize"@),
        option_like("--ink-neutralize-strength"@),
        option_like("--ink-neutralize-exclude-pages"@),
        option_like("--deskew"@),
        option_like("--dewarp"@),
        option_like("--margins"@),
        option_like("--dpi"@),
        option_like("--output-dpi"@),
        option_like("--despeckle"@),
        option_like("--page-detection-tolerance"@),
        option_like("--scantailor-path"@),
        option_like("--superres"@),
        option_like("--output-scale"@),
        option_like("--ai-scale"@),
        option_like("--scale"@),
        option_like("--inference-scale"@),
        option_like("--model"@),
        option_like("--gpu-workers"@),
        option_like("--cpu-workers"@),
        option_like("--tile"@),
        option_like("--gpu-id"@),
        option_like("--tta"@),
        option_like("--realesrgan-path"@),
        option_like("--model-dir"@),
        option_like("--pre-stroke"@),
        option_like("--pre-stroke-strength"@),
        option_like("--tone-boost"@),
        option_like("--tone-boost-strength"@),
        option_like("--stroke"@),
        option_like("--stroke-strength"@),
        option_like("--tone-color-global-threshold"@),
        option_like("--tone-color-tile-threshold"@),
        option_like("--tone-exclude-pages"@),
        option_like("--grayscale-pages"@),
        option_like("--jpeg-quality"@),
        option_like("--jpeg-sampling"@),
        option_like("--preserve-position"@),
        option_like("--no-scantailor"@),
        option_like("--no-blank-detection"@),
        option_like("--no-crop"@),
        option_like("--no-normalize"@),
        option_like("--no-color-normalize"@),
        option_like("--no-ink-neutralize"@),
        option_like("--no-tone-boost"@),
        option_like("--no-stroke"@),
        option_like("--no-resume"@),
        option_like("--max-performance"@),
        option_like("--no-max-performance"@),
        "--no-scantailor"@.len() >= 5 && ("--no-scantailor"@[2] == 'k' || ("--no-scantailor"@[2] == 'n' && "--no-scantailor"@[3] == 'o' && "--no-scantailor"@[4] == '-')),
        "--no-blank-detection"@.len() >= 5 && ("--no-blank-detection"@[2] == 'k' || ("--no-blank-detection"@[2] == 'n' && "--no-blank-detection"@[3] == 'o' && "--no-blank-detection"@[4] == '-')),
        "--no-crop"@.len() >= 5 && ("--no-crop"@[2] == 'k' || ("--no-crop"@[2] == 'n' && "--no-crop"@[3] == 'o' && "--no-crop"@[4] == '-')),
        "--no-normalize"@.len() >= 5 && ("--no-normalize"@[2] == 'k' || ("--no-normalize"@[2] == 'n' && "--no-normalize"@[3] == 'o' && "--no-normalize"@[4] == '-')),
        "--no-color-normalize"@.len() >= 5 && ("--no-color-normalize"@[2] == 'k' || ("--no-color-normalize"@[2] == 'n' && "--no-color-normalize"@[3] == 'o' && "--no-color-normalize"@[4] == '-')),
        "--no-ink-neutralize"@.len() >= 5 && ("--no-ink-neutralize"@[2] == 'k' || ("--no-ink-neutralize"@[2] == 'n' && "--no-ink-neutralize"@[3] == 'o' && "--no-ink-neutralize"@[4] == '-')),
        "--no-stroke"@.len() >= 5 && ("--no-stroke"@[2] == 'k' || ("--no-stroke"@[2] == 'n' && "--no-stroke"@[3] == 'o' && "--no-stroke"@[4] == '-')),
        "--no-tone-boost"@.len() >= 5 && ("--no-tone-boost"@[2] == 'k' || ("--no-tone-boost"@[2] == 'n' && "--no-tone-boost"@[3] == 'o' && "--no-tone-boost"@[4] == '-')),
        "--no-resume"@.len() >= 5 && ("--no-resume"@[2] == 'k' || ("--no-resume"@[2] == 'n' && "--no-resume"@[3] == 'o' && "--no-resume"@[4] == '-')),
        "--no-max-performance"@.len() >= 5 && ("--no-max-performance"@[2] == 'k' || ("--no-max-performance"@[2] == 'n' && "--no-max-performance"@[3] == 'o' && "--no-max-performance"@[4] == '-')),
        "--keep-work"@.len() >= 5 && ("--keep-work"@[2] == 'k' || ("--keep-work"@[2] == 'n' && "--keep-work"@[3] == 'o' && "--keep-work"@[4] == '-')),
{
    lemma_table_names_0();
    lemma_table_names_1();
    lemma_table_names_2();
    lemma_table_names_3();
}

/// The name of a valued row of the table is option-like and has the
/// shape of a valued option.
#[verifier::rlimit(60)]
proof fn lemma_value_row(k: int)
    requires
        0 <= k < BOOK_OPTION_COUNT,
        book_option(k).arity == BookOptionArity::Value,
    ensures
        option_like(book_option(k).name@),
        valued_shape(book_option(k).name@),
{
    lemma_table_names();
    if k == 0 {
        reveal_strlit("--pages");
    } else if k == 1 {
        reveal_strlit("--work-dir");
    } else if k == 2 {
        reveal_strlit("--resume");
    } else if k == 4 {
        reveal_strlit("--blank-detection");
    } else if k == 5 {
        reveal_strlit("--blank-dark-delta");
    } else if k == 6 {
        reveal_strlit("--blank-max-dark-ratio");
    } else if k == 7 {
        reveal_strlit("--blank-edge-threshold");
    } else if k == 8 {
        reveal_strlit("--blank-max-edge-ratio");
    } else if k == 9 {
        reveal_strlit("--scantailor");
    } else if k == 10 {
        reveal_strlit("--crop");
    } else if k == 11 {
        reveal_strlit("--crop-exclude-pages");
    } else if k == 12 {
        reveal_strlit("--normalize");
    } else if k == 13 {
        reveal_strlit("--color-normalize");
    } else if k == 14 {
        reveal_strlit("--color-normalize-strength");
    } else if k == 15 {
        reveal_strlit("--color-normalize-radius");
    } else if k == 16 {
        reveal_strlit("--ink-neutralize");
    } else if k == 17 {
        reveal_strlit("--ink-neutralize-strength");
    } else if k == 18 {
        reveal_strlit("--ink-neutralize-exclude-pages");
    } else if k == 19 {
        reveal_strlit("--deskew");
    } else if k == 20 {
        reveal_strlit("--dewarp");
    } else if k == 21 {
        reveal_strlit("--margins");
    } else if k == 22 {
        reveal_strlit("--dpi");
    } else if k == 23 {
        reveal_strlit("--output-dpi");
    } else if k == 24 {
        reveal_strlit("--despeckle");
    } else if k == 25 {
        reveal_strlit("--page-detection-tolerance");
    } else if k == 26 {
        reveal_strlit("--scantailor-path");
    } else if k == 27 {
        reveal_strlit("--superres");
    } else if k == 28 {
        reveal_strlit("--output-scale");
    } else if k == 29 {
        reveal_strlit("--ai-scale");
    } else if k == 30 {
        reveal_strlit("--scale");
    } else if k == 31 {
        reveal_strlit("--inference-scale");
    } else if k == 32 {
        reveal_strlit("--model");
    } else if k == 33 {
        reveal_strlit("--gpu-workers");
    } else if k == 34 {
        reveal_strlit("--cpu-workers");
    } else if k == 35 {
        reveal_strlit("--tile");
    } else if k == 36 {
        reveal_strlit("--gpu-id");
    } else if k == 37 {
        reveal_strlit("--tta");
    } else if k == 38 {
        reveal_strlit("--realesrgan-path");
    } else if k == 39 {
        reveal_strlit("--model-dir");
    } else if k == 40 {
        reveal_strlit("--pre-stroke");
    } else if k == 41 {
        reveal_strlit("--pre-stroke-strength");
    } else if k == 42 {
        reveal_strlit("--tone-boost");
    } else if k == 43 {
        reveal_strlit("--tone-boost-strength");
    } else if k == 44 {
        reveal_strlit("--stroke");
    } else if k == 45 {
        reveal_strlit("--stroke-strength");
    } else if k == 46 {
        reveal_strlit("--tone-color-global-threshold");
    } else if k == 47 {
        reveal_strlit("--tone-color-tile-threshold");
    } else if k == 48 {
        reveal_strlit("--tone-exclude-pages");
    } else if k == 49 {
        reveal_strlit("--grayscale-pages");
    } else if k == 50 {
        reveal_strlit("--jpeg-quality");
    } else if k == 51 {
        reveal_strlit("--jpeg-sampling");
    } else if k == 52 {
        reveal_strlit("--preserve-position");
    }
}

proof fn lemma_switch_name(i: int)
    requires
        0 <= i < SWITCH_COUNT,
    ensures
        option_like(switch_option(i).0@),
{
    lemma_table_names();
}

proof fn lemma_number_name(i: int)
    requires
        0 <= i < NUMBER_COUNT,
    ensures
        option_like(number_option(i).0@),
{
    lemma_table_names();
}

// ---------------------------------------------------------------------
// The whole parse

/// Every option-like name reads the same value in `a1` and `a2`.
pub open spec fn values_agree(a1: Seq<Seq<char>>, a2: Seq<Seq<char>>) -> bool {
    forall|m: Seq<char>| option_like(m) ==> #[trigger] option_value_of(a1, m) == option_value_of(a2, m)
}

proof fn lemma_switch_errors_agree(a1: Seq<Seq<char>>, a2: Seq<Seq<char>>, n: int)
    requires
        values_agree(a1, a2),
        0 <= n <= SWITCH_COUNT,
    ensures
        switch_errors_upto(a1, n) == switch_errors_upto(a2, n),
    decreases n,
{
    if n > 0 {
        lemma_switch_errors_agree(a1, a2, n - 1);
        lemma_switch_name(n - 1);
        let nm = switch_option(n - 1).0@;
        assert(option_value_of(a1, nm) == option_value_of(a2, nm));
        assert(toggle_check(a1, nm) == toggle_check(a2, nm));
    }
}

proof fn lemma_number_errors_agree(a1: Seq<Seq<char>>, a2: Seq<Seq<char>>, n: int)
    requires
        values_agree(a1, a2),
        0 <= n <= NUMBER_COUNT,
    ensures
        number_errors_upto(a1, n) == number_errors_upto(a2, n),
    decreases n,
{
    if n > 0 {
        lemma_number_errors_agree(a1, a2, n - 1);
        lemma_number_name(n - 1);
        let nm = number_option(n - 1).0@;
        assert(option_value_of(a1, nm) == option_value_of(a2, nm));
        assert(number_check(a1, nm, number_option(n - 1).1) == number_check(a2, nm, number_option(n - 1).1));
    }
}

#[verifier::rlimit(100)]
#[verifier::spinoff_prover]
proof fn lemma_settings_agree(a1: Seq<Seq<char>>, a2: Seq<Seq<char>>, c: crate::config::BookScanConfig)
    requires
        values_agree(a1, a2),
        a1.len() > 0,
        a2.len() > 0,
        a1[0] == a2[0],
        a1.contains("--no-scantailor"@) == a2.contains("--no-scantailor"@),
        a1.contains("--no-blank-detection"@) == a2.contains("--no-blank-detection"@),
        a1.contains("--no-crop"@) == a2.contains("--no-crop"@),
        a1.contains("--no-normalize"@) == a2.contains("--no-normalize"@),
        a1.contains("--no-color-normalize"@) == a2.contains("--no-color-normalize"@),
        a1.contains("--no-ink-neutralize"@) == a2.contains("--no-ink-neutralize"@),
        a1.contains("--no-stroke"@) == a2.contains("--no-stroke"@),
        a1.contains("--no-tone-boost"@) == a2.contains("--no-tone-boost"@),
        a1.contains("--no-resume"@) == a2.contains("--no-resume"@),
        a1.contains("--no-max-performance"@) == a2.contains("--no-max-performance"@),
        a1.contains("--keep-work"@) == a2.contains("--keep-work"@),
    ensures
        book_scan_settings(a1, c) == book_scan_settings(a2, c),
{
    lemma_table_names();
    assert(option_value_of(a1, "--scantailor"@) == option_value_of(a2, "--scantailor"@));
    assert(option_value_of(a1, "--no-scantailor"@) == option_value_of(a2, "--no-scantailor"@));
    assert(option_value_of(a1, "--work-dir"@) == option_value_of(a2, "--work-dir"@));
    assert(option_value_of(a1, "--blank-detection"@) == option_value_of(a2, "--blank-detection"@));
    assert(option_value_of(a1, "--no-blank-detection"@) == option_value_of(a2, "--no-blank-detection"@));
    assert(option_value_of(a1, "--blank-dark-delta"@) == option_value_of(a2, "--blank-dark-delta"@));
    assert(option_value_of(a1, "--blank-edge-threshold"@) == option_value_of(a2, "--blank-edge-threshold"@));
    assert(option_value_of(a1, "--crop"@) == option_value_of(a2, "--crop"@));
    assert(option_value_of(a1, "--no-crop"@) == option_value_of(a2, "--no-crop"@));
    assert(option_value_of(a1, "--crop-exclude-pages"@) == option_value_of(a2, "--crop-exclude-pages"@));
    assert(option_value_of(a1, "--normalize"@) == option_value_of(a2, "--normalize"@));
    assert(option_value_of(a1, "--no-normalize"@) == option_value_of(a2, "--no-normalize"@));
    assert(option_value_of(a1, "--color-normalize"@) == option_value_of(a2, "--color-normalize"@));
    assert(option_value_of(a1, "--no-color-normalize"@) == option_value_of(a2, "--no-color-normalize"@));
    assert(option_value_of(a1, "--color-normalize-strength"@) == option_value_of(a2, "--color-normalize-strength"@));
    assert(option_value_of(a1, "--color-normalize-radius"@) == option_value_of(a2, "--color-normalize-radius"@));
    assert(option_value_of(a1, "--ink-neutralize"@) == option_value_of(a2, "--ink-neutralize"@));
    assert(option_value_of(a1, "--no-ink-neutralize"@) == option_value_of(a2, "--no-ink-neutralize"@));
    assert(option_value_of(a1, "--ink-neutralize-strength"@) == option_value_of(a2, "--ink-neutralize-strength"@));
    assert(option_value_of(a1, "--ink-neutralize-exclude-pages"@) == option_value_of(a2, "--ink-neutralize-exclude-pages"@));
    assert(option_value_of(a1, "--deskew"@) == option_value_of(a2, "--deskew"@));
    assert(option_value_of(a1, "--dewarp"@) == option_value_of(a2, "--dewarp"@));
    assert(option_value_of(a1, "--dpi"@) == option_value_of(a2, "--dpi"@));
    assert(option_value_of(a1, "--output-dpi"@) == option_value_of(a2, "--output-dpi"@));
    assert(option_value_of(a1, "--output-scale"@) == option_value_of(a2, "--output-scale"@));
    assert(option_value_of(a1, "--scale"@) == option_value_of(a2, "--scale"@));
    assert(option_value_of(a1, "--ai-scale"@) == option_value_of(a2, "--ai-scale"@));
    assert(option_value_of(a1, "--inference-scale"@) == option_value_of(a2, "--inference-scale"@));
    assert(option_value_of(a1, "--model"@) == option_value_of(a2, "--model"@));
    assert(option_value_of(a1, "--gpu-workers"@) == option_value_of(a2, "--gpu-workers"@));
    assert(option_value_of(a1, "--cpu-workers"@) == option_value_of(a2, "--cpu-workers"@));
    assert(option_value_of(a1, "--tile"@) == option_value_of(a2, "--tile"@));
    assert(option_value_of(a1, "--gpu-id"@) == option_value_of(a2, "--gpu-id"@));
    assert(option_value_of(a1, "--tta"@) == option_value_of(a2, "--tta"@));
    assert(option_value_of(a1, "--stroke"@) == option_value_of(a2, "--stroke"@));
    assert(option_value_of(a1, "--no-stroke"@) == option_value_of(a2, "--no-stroke"@));
    assert(option_value_of(a1, "--stroke-strength"@) == option_value_of(a2, "--stroke-strength"@));
    assert(option_value_of(a1, "--tone-boost"@) == option_value_of(a2, "--tone-boost"@));
    assert(option_value_of(a1, "--no-tone-boost"@) == option_value_of(a2, "--no-tone-boost"@));
    assert(option_value_of(a1, "--tone-boost-strength"@) == option_value_of(a2, "--tone-boost-strength"@));
    assert(option_value_of(a1, "--tone-exclude-pages"@) == option_value_of(a2, "--tone-exclude-pages"@));
    assert(option_value_of(a1, "--grayscale-pages"@) == option_value_of(a2, "--grayscale-pages"@));
    assert(option_value_of(a1, "--pre-stroke"@) == option_value_of(a2, "--pre-stroke"@));
    assert(option_value_of(a1, "--pre-stroke-strength"@) == option_value_of(a2, "--pre-stroke-strength"@));
    assert(option_value_of(a1, "--jpeg-quality"@) == option_value_of(a2, "--jpeg-quality"@));
    assert(option_value_of(a1, "--preserve-position"@) == option_value_of(a2, "--preserve-position"@));
    assert(option_value_of(a1, "--scantailor-path"@) == option_value_of(a2, "--scantailor-path"@));
    assert(option_value_of(a1, "--realesrgan-path"@) == option_value_of(a2, "--realesrgan-path"@));
    assert(option_value_of(a1, "--model-dir"@) == option_value_of(a2, "--model-dir"@));
    assert(option_value_of(a1, "--resume"@) == option_value_of(a2, "--resume"@));
    assert(option_value_of(a1, "--no-resume"@) == option_value_of(a2, "--no-resume"@));
    assert(option_value_of(a1, "--keep-work"@) == option_value_of(a2, "--keep-work"@));
    assert(option_value_of(a1, "--pages"@) == option_value_of(a2, "--pages"@));
    assert(option_value_of(a1, "--superres"@) == option_value_of(a2, "--superres"@));
    assert(option_value_of(a1, "--jpeg-sampling"@) == option_value_of(a2, "--jpeg-sampling"@));
}

#[verifier::rlimit(60)]
#[verifier::spinoff_prover]
proof fn lemma_reals_agree(a1: Seq<Seq<char>>, a2: Seq<Seq<char>>, t: crate::cli::RealOptionTexts)
    requires
        values_agree(a1, a2),
    ensures
        book_scan_reals(a1, t) == book_scan_reals(a2, t),
{
    lemma_table_names();
}

#[verifier::rlimit(60)]
#[verifier::spinoff_prover]
proof fn lemma_errors_agree(a1: Seq<Seq<char>>, a2: Seq<Seq<char>>)
    requires
        values_agree(a1, a2),
        name_errors(a1, a1.len() as int) == name_errors(a2, a2.len() as int),
    ensures
        book_scan_errors(a1) == book_scan_errors(a2),
{
    lemma_table_names();
    lemma_switch_errors_agree(a1, a2, SWITCH_COUNT as int);
    lemma_number_errors_agree(a1, a2, NUMBER_COUNT as int);
    assert(value_errors(a1) == value_errors(a2));
}

/// `--name value` and `--name=value` are interchangeable: for a valued
/// option `name` of the table given once as `name` (and not before as
/// `name=…`), with a value that does not start with `--`, after at least
/// the input argument, the book-scan arguments
/// in the one form have exactly the parses of the arguments in the other
/// form (the same settings, real-valued texts, output path and complaints).
#[verifier::rlimit(100)]
#[verifier::spinoff_prover]
pub proof fn lemma_option_forms_parse_alike(
    p: Seq<Seq<char>>,
    name: Seq<char>,
    v: Seq<char>,
    q: Seq<Seq<char>>,
    r: CliArgs,
)
    requires
        p.len() >= 1,
        option_index(name) matches Some(k) && book_option(k).arity == BookOptionArity::Value,
        !has_prefix(v, "--"@),
        absent(p, name),
        not_given(q, name),
    ensures
        book_scan_parsed(two_token_form(p, name, v, q), r) == book_scan_parsed(one_token_form(p, name, v, q), r),
{
    let a1 = two_token_form(p, name, v, q);
    let a2 = one_token_form(p, name, v, q);
    let k = option_index(name)->0;
    lemma_option_index_range(name, 0);
    lemma_value_row(k);
    lemma_table_names();
    assert forall|m: Seq<char>| option_like(m) implies #[trigger] option_value_of(a1, m) == option_value_of(a2, m) by {
        lemma_option_value_forms(p, name, v, q, m);
    }
    assert(values_agree(a1, a2));
    assert("--no-scantailor"@ != name);
    lemma_contains_forms(p, name, v, q, "--no-scantailor"@);
    assert("--no-blank-detection"@ != name);
    lemma_contains_forms(p, name, v, q, "--no-blank-detection"@);
    assert("--no-crop"@ != name);
    lemma_contains_forms(p, name, v, q, "--no-crop"@);
    assert("--no-normalize"@ != name);
    lemma_contains_forms(p, name, v, q, "--no-normalize"@);
    assert("--no-color-normalize"@ != name);
    lemma_contains_forms(p, name, v, q, "--no-color-normalize"@);
    assert("--no-ink-neutralize"@ != name);
    lemma_contains_forms(p, name, v, q, "--no-ink-neutralize"@);
    assert("--no-stroke"@ != name);
    lemma_contains_forms(p, name, v, q, "--no-stroke"@);
    assert("--no-tone-boost"@ != name);
    lemma_contains_forms(p, name, v, q, "--no-tone-boost"@);
    assert("--no-resume"@ != name);
    lemma_contains_forms(p, name, v, q, "--no-resume"@);
    assert("--no-max-performance"@ != name);
    lemma_contains_forms(p, name, v, q, "--no-max-performance"@);
    assert("--keep-work"@ != name);
    lemma_contains_forms(p, name, v, q, "--keep-work"@);
    lemma_name_errors_forms(p, name, v, q);
    lemma_errors_agree(a1, a2);
    lemma_form_layout(p, name, v, q);
    lemma_joined_arg(name, v);
    lemma_prefix_eq(name + "="@ + v, name);
    assert(a1[0] == a2[0]);
    assert(a1[1] == a2[1] || (has_prefix(a1[1], "--"@) && has_prefix(a2[1], "--"@)));
    lemma_reals_agree(a1, a2, r.real_options);
    if r.book_scan is Some {
        lemma_settings_agree(a1, a2, r.book_scan->0);
    }
}

} // verus!
