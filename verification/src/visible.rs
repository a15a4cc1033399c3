//! What a terminal shows of rendered text: the characters outside SGR escape
//! sequences. An escape starts with `ESC` and runs up to and including the next
//! `m`.

use vstd::prelude::*;

use crate::text::{decimal, digit_char};

verus! {

/// The visible characters of `s`, reading it from a state that is inside an escape
/// when `in_escape`.
pub open spec fn visible_from(s: Seq<char>, in_escape: bool) -> Seq<char>
    decreases s.len(),
{
    if s.len() == 0 {
        Seq::empty()
    } else if in_escape {
        visible_from(s.drop_first(), s[0] != 'm')
    } else if s[0] == '\x1b' {
        visible_from(s.drop_first(), true)
    } else {
        seq![s[0]] + visible_from(s.drop_first(), false)
    }
}

/// Whether reading `s` from `in_escape` ends inside an escape.
pub open spec fn escape_after(s: Seq<char>, in_escape: bool) -> bool
    decreases s.len(),
{
    if s.len() == 0 {
        in_escape
    } else if in_escape {
        escape_after(s.drop_first(), s[0] != 'm')
    } else {
        escape_after(s.drop_first(), s[0] == '\x1b')
    }
}

/// The visible characters of `s`.
pub open spec fn visible(s: Seq<char>) -> Seq<char> {
    visible_from(s, false)
}

/// `s` holds no `m` (so it cannot end an escape early).
pub open spec fn no_m(s: Seq<char>) -> bool {
    forall|i: int| 0 <= i < s.len() ==> s[i] != 'm'
}

/// `s` is one complete escape: `ESC`, characters other than `m`, then `m`.
pub open spec fn is_escape(s: Seq<char>) -> bool {
    &&& s.len() >= 2
    &&& s[0] == '\x1b'
    &&& s.last() == 'm'
    &&& no_m(s.subrange(1, s.len() - 1))
}

/// `s` holds no `ESC`.
pub open spec fn no_esc(s: Seq<char>) -> bool {
    forall|i: int| 0 <= i < s.len() ==> s[i] != '\x1b'
}

/// Reading two pieces one after the other.
pub proof fn lemma_visible_concat(a: Seq<char>, b: Seq<char>, e: bool)
    ensures
        visible_from(a + b, e) == visible_from(a, e) + visible_from(b, escape_after(a, e)),
        escape_after(a + b, e) == escape_after(b, escape_after(a, e)),
    decreases a.len(),
{
    if a.len() == 0 {
        assert(a + b =~= b);
    } else {
        assert((a + b).drop_first() =~= a.drop_first() + b);
        assert((a + b)[0] == a[0]);
        if e {
            lemma_visible_concat(a.drop_first(), b, a[0] != 'm');
        } else if a[0] == '\x1b' {
            lemma_visible_concat(a.drop_first(), b, true);
        } else {
            lemma_visible_concat(a.drop_first(), b, false);
            assert(visible_from(a + b, e) =~= visible_from(a, e) + visible_from(b, escape_after(a, e)));
        }
    }
}

proof fn lemma_inside_escape(s: Seq<char>)
    requires
        no_m(s),
    ensures
        visible_from(s, true) == Seq::<char>::empty(),
        escape_after(s, true),
    decreases s.len(),
{
    if s.len() > 0 {
        assert(no_m(s.drop_first()));
        lemma_inside_escape(s.drop_first());
    }
}

/// A complete escape shows nothing and leaves the reader outside an escape.
pub proof fn lemma_escape_invisible(s: Seq<char>)
    requires
        is_escape(s),
    ensures
        visible(s) == Seq::<char>::empty(),
        !escape_after(s, false),
{
    let body = s.subrange(1, s.len() - 1);
    assert(s =~= seq![s[0]] + body + seq!['m']);
    let one = seq![s[0]];
    lemma_visible_concat(one, body + seq!['m'], false);
    assert(one.len() == 1 && one[0] == '\x1b');
    assert(one.drop_first() =~= Seq::<char>::empty());
    assert(visible_from(one.drop_first(), true) == Seq::<char>::empty());
    assert(visible_from(one, false) == Seq::<char>::empty());
    assert(escape_after(one.drop_first(), true));
    assert(escape_after(one, false));
    let tail = seq!['m'];
    assert(tail.drop_first() =~= Seq::<char>::empty());
    assert(tail[0] == 'm');
    assert(tail.len() == 1);
    assert(visible_from(tail.drop_first(), false) == Seq::<char>::empty());
    assert(!escape_after(tail.drop_first(), false));
    assert(visible_from(tail, true) == visible_from(tail.drop_first(), false));
    assert(visible_from(tail, true) == Seq::<char>::empty());
    assert(!escape_after(tail, true));
    lemma_visible_concat(body, tail, true);
    lemma_inside_escape(body);
    assert(visible_from(body + tail, true) =~= Seq::<char>::empty());
    assert(!escape_after(body + tail, true));
    assert(s =~= one + (body + tail));
    assert(visible_from(s, false) =~= Seq::<char>::empty());
}

/// Text without `ESC` shows as itself.
pub proof fn lemma_plain_visible(s: Seq<char>)
    requires
        no_esc(s),
    ensures
        visible(s) == s,
        !escape_after(s, false),
    decreases s.len(),
{
    if s.len() > 0 {
        assert(no_esc(s.drop_first()));
        lemma_plain_visible(s.drop_first());
        assert(seq![s[0]] + s.drop_first() =~= s);
    }
}

/// Decimal digits are never `m`.
pub proof fn lemma_decimal_no_m(n: nat)
    ensures
        no_m(decimal(n)),
        no_esc(decimal(n)),
    decreases n,
{
    if n >= 10 {
        lemma_decimal_no_m(n / 10);
        let d = digit_char(n % 10);
        assert(d != 'm' && d != '\x1b');
        assert(decimal(n) == decimal(n / 10).push(d));
    } else {
        assert(digit_char(n) != 'm' && digit_char(n) != '\x1b');
    }
}

pub proof fn lemma_no_m_concat(a: Seq<char>, b: Seq<char>)
    requires
        no_m(a),
        no_m(b),
    ensures
        no_m(a + b),
{
    assert forall|i: int| 0 <= i < (a + b).len() implies (a + b)[i] != 'm' by {
        if i < a.len() {
            assert((a + b)[i] == a[i]);
        } else {
            assert((a + b)[i] == b[i - a.len()]);
        }
    }
}

/// `ESC`, a body without `m`, then `m` is a complete escape.
pub proof fn lemma_wrap_escape(body: Seq<char>)
    requires
        no_m(body),
    ensures
        is_escape(seq!['\x1b'] + body + seq!['m']),
{
    let s = seq!['\x1b'] + body + seq!['m'];
    assert(s.subrange(1, s.len() - 1) =~= body);
}

} // verus!
