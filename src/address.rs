//! IP address literals: IPv4 in dotted-decimal form and IPv6 in its
//! colon-separated hexadecimal forms.
use vstd::prelude::*;
use crate::text::{all_dec, digits_value, is_dec, split_on};

verus! {

/// One octet of a dotted quad: one to three digits, no leading zero unless
/// the octet is `0` itself, and a value of at most 255.
pub open spec fn octet_text(p: Seq<char>) -> bool {
    &&& 1 <= p.len() <= 3
    &&& all_dec(p)
    &&& (p.len() > 1 ==> p[0] != '0')
    &&& digits_value(p) <= 255
}

/// `s` is an IPv4 literal: four octets separated by `.`.
pub open spec fn ipv4_text(s: Seq<char>) -> bool {
    let parts = split_on(s, '.');
    parts.len() == 4 && forall|k: int| 0 <= k < 4 ==> octet_text(#[trigger] parts[k])
}

/// Whether `s` is an IPv4 address in dotted-decimal form.
pub fn is_ipv4_literal(s: &str) -> (r: bool)
    ensures
        r == ipv4_text(s@),
{
    let n = s.unicode_len();
    let mut i: usize = 0;
    let mut parts: usize = 0;
    let mut done_ok = true;
    let mut cur_len: usize = 0;
    let mut cur_digits = true;
    let mut cur_big = false;
    let mut cur_val: u32 = 0;
    let mut cur_zero_first = false;
    assert(s@.subrange(0, 0) =~= Seq::<char>::empty());
    while i < n
        invariant
            i <= n,
            n == s@.len(),
            parts <= i,
            cur_len <= i,
            ({
                let sp = split_on(s@.subrange(0, i as int), '.');
                let c = sp.last();
                &&& sp.len() == parts + 1
                &&& done_ok == (forall|k: int| 0 <= k < parts ==> octet_text(#[trigger] sp[k]))
                &&& c.len() == cur_len
                &&& cur_digits == all_dec(c)
                &&& cur_digits ==> (cur_big == (digits_value(c) > 255))
                &&& (cur_digits && !cur_big) ==> cur_val == digits_value(c)
                &&& cur_len > 0 ==> (cur_zero_first == (c[0] == '0'))
            }),
        decreases n - i,
    {
        let ch = s.get_char(i);
        let ghost prev = s@.subrange(0, i as int);
        let ghost next = s@.subrange(0, i + 1);
        let ghost sp0 = split_on(prev, '.');
        let ghost c0 = sp0.last();
        assert(next.drop_last() =~= prev);
        assert(next.last() == ch);
        if ch == '.' {
            let ok = cur_len >= 1 && cur_len <= 3 && cur_digits && !cur_big && (cur_len == 1 || !cur_zero_first);
            proof {
                assert(ok == octet_text(c0));
                let sp1 = split_on(next, '.');
                assert(sp1 == sp0.push(Seq::<char>::empty()));
                assert forall|k: int| 0 <= k < parts + 1 implies sp1[k] == sp0[k] by {}
                if done_ok && ok {
                    assert forall|k: int| 0 <= k < parts + 1 implies octet_text(#[trigger] sp1[k]) by {
                        assert(sp1[k] == sp0[k]);
                    }
                }
                if !(done_ok && ok) {
                    if !ok {
                        assert(sp1[parts as int] == c0);
                    } else {
                        let k = choose|k: int| 0 <= k < parts && !octet_text(#[trigger] sp0[k]);
                        assert(sp1[k] == sp0[k]);
                    }
                }
            }
            done_ok = done_ok && ok;
            parts = parts + 1;
            cur_len = 0;
            cur_digits = true;
            cur_big = false;
            cur_val = 0;
            cur_zero_first = false;
        } else {
            let d = '0' <= ch && ch <= '9';
            proof {
                let sp1 = split_on(next, '.');
                let c1 = c0.push(ch);
                assert(sp1 == sp0.update(sp0.len() - 1, c1));
                assert(sp1.last() == c1);
                assert(c1.drop_last() =~= c0);
                assert forall|k: int| 0 <= k < parts implies sp1[k] == sp0[k] by {}
                assert(done_ok == (forall|k: int| 0 <= k < parts ==> octet_text(#[trigger] sp1[k])));
                assert(all_dec(c1) == (all_dec(c0) && is_dec(ch))) by {
                    if all_dec(c0) && is_dec(ch) {
                        assert forall|j: int| 0 <= j < c1.len() implies is_dec(#[trigger] c1[j]) by {
                            if j < c0.len() {
                                assert(c1[j] == c0[j]);
                            }
                        }
                    }
                    if all_dec(c1) {
                        assert(is_dec(c1[c0.len() as int]));
                        assert forall|j: int| 0 <= j < c0.len() implies is_dec(#[trigger] c0[j]) by {
                            assert(c1[j] == c0[j]);
                        }
                    }
                }
                if cur_len > 0 {
                    assert(c1[0] == c0[0]);
                }
            }
            if cur_len == 0 {
                cur_zero_first = ch == '0';
            }
            cur_digits = cur_digits && d;
            if cur_digits && !cur_big {
                let v = cur_val * 10 + (ch as u32 - '0' as u32);
                if v > 255 {
                    cur_big = true;
                } else {
                    cur_val = v;
                }
            }
            cur_len = cur_len + 1;
        }
        i += 1;
    }
    assert(s@.subrange(0, n as int) =~= s@);
    let last_ok = cur_len >= 1 && cur_len <= 3 && cur_digits && !cur_big && (cur_len == 1 || !cur_zero_first);
    proof {
        let sp = split_on(s@, '.');
        assert(last_ok == octet_text(sp.last()));
        if parts == 3 && done_ok && last_ok {
            assert forall|k: int| 0 <= k < 4 implies octet_text(#[trigger] sp[k]) by {
                if k == 3 {
                    assert(sp[k] == sp.last());
                }
            }
        }
        if parts == 3 && !(done_ok && last_ok) {
            if !last_ok {
                assert(sp[3] == sp.last());
            } else {
                let k = choose|k: int| 0 <= k < parts && !octet_text(#[trigger] sp[k]);
            }
        }
    }
    parts == 3 && done_ok && last_ok
}


/// An ASCII hexadecimal digit, either case.
pub open spec fn is_hex(c: char) -> bool {
    ('0' <= c && c <= '9') || ('a' <= c && c <= 'f') || ('A' <= c && c <= 'F')
}

/// One 16-bit group of an IPv6 literal: one to four hexadecimal digits.
pub open spec fn h16_text(p: Seq<char>) -> bool {
    1 <= p.len() <= 4 && forall|i: int| 0 <= i < p.len() ==> is_hex(#[trigger] p[i])
}

/// The `:`-separated fields of a run of groups; an empty run has none.
pub open spec fn run_fields(t: Seq<char>) -> Seq<Seq<char>> {
    if t.len() == 0 {
        Seq::empty()
    } else {
        split_on(t, ':')
    }
}

/// Every field is a group.
pub open spec fn all_h16(f: Seq<Seq<char>>) -> bool {
    forall|k: int| 0 <= k < f.len() ==> h16_text(#[trigger] f[k])
}

/// Every field is a group, except that the last may be an IPv4 literal.
pub open spec fn run_ok(f: Seq<Seq<char>>) -> bool {
    f.len() == 0 || ((forall|k: int| 0 <= k < f.len() - 1 ==> h16_text(#[trigger] f[k]))
        && (h16_text(f.last()) || ipv4_text(f.last())))
}

/// The 16-bit slots a run fills: one per group, two for an IPv4 literal.
pub open spec fn run_slots(f: Seq<Seq<char>>) -> nat {
    if f.len() == 0 || h16_text(f.last()) {
        f.len()
    } else {
        f.len() + 1
    }
}

/// The first position at or after `i` where `::` starts.
pub open spec fn double_colon_from(s: Seq<char>, i: int) -> Option<int>
    decreases s.len() - i,
{
    if i < 0 || i + 1 >= s.len() {
        None
    } else if s[i] == ':' && s[i + 1] == ':' {
        Some(i)
    } else {
        double_colon_from(s, i + 1)
    }
}

/// `s` is an IPv6 literal: eight groups (the last two may be written as an
/// IPv4 literal), or a `::` standing for one or more zero groups between a
/// head of groups and a tail run, with at most seven slots written.
pub open spec fn ipv6_text(s: Seq<char>) -> bool {
    match double_colon_from(s, 0) {
        None => run_ok(run_fields(s)) && run_slots(run_fields(s)) == 8,
        Some(i) => {
            let head = run_fields(s.subrange(0, i));
            let tail = run_fields(s.subrange(i + 2, s.len() as int));
            all_h16(head) && run_ok(tail) && head.len() + run_slots(tail) <= 7
        },
    }
}

/// Whether `p` is one IPv6 group.
fn is_h16(p: &str) -> (r: bool)
    ensures
        r == h16_text(p@),
{
    let n = p.unicode_len();
    if n < 1 || n > 4 {
        return false;
    }
    let mut i: usize = 0;
    while i < n
        invariant
            i <= n,
            n == p@.len(),
            forall|j: int| 0 <= j < i ==> is_hex(#[trigger] p@[j]),
        decreases n - i,
    {
        let c = p.get_char(i);
        if !(('0' <= c && c <= '9') || ('a' <= c && c <= 'f') || ('A' <= c && c <= 'F')) {
            assert(!is_hex(p@[i as int]));
            return false;
        }
        i += 1;
    }
    true
}

/// Scans a run of groups: whether it is well formed, whether all its fields
/// are groups, and how many fields it has.
fn scan_run(t: &str) -> (r: (bool, bool, usize))
    ensures
        r.0 == run_ok(run_fields(t@)),
        r.1 == all_h16(run_fields(t@)),
        r.2 == if run_fields(t@).len() <= 16 {
            run_fields(t@).len()
        } else {
            16
        },
{
    let n = t.unicode_len();
    if n == 0 {
        return (true, true, 0);
    }
    let mut i: usize = 0;
    let mut start: usize = 0;
    let mut count: usize = 0;
    let mut prefix_ok = true;
    assert(t@.subrange(0, 0) =~= Seq::<char>::empty());
    while i < n
        invariant
            i <= n,
            n == t@.len(),
            start <= i,
            count <= i,
            ({
                let sp = split_on(t@.subrange(0, i as int), ':');
                &&& sp.len() == count + 1
                &&& prefix_ok == (forall|k: int| 0 <= k < count ==> h16_text(#[trigger] sp[k]))
                &&& sp.last() == t@.subrange(start as int, i as int)
            }),
        decreases n - i,
    {
        let ch = t.get_char(i);
        let ghost prev = t@.subrange(0, i as int);
        let ghost next = t@.subrange(0, i + 1);
        let ghost sp0 = split_on(prev, ':');
        assert(next.drop_last() =~= prev);
        assert(next.last() == ch);
        if ch == ':' {
            let field = t.substring_char(start, i);
            let ok = is_h16(field);
            proof {
                let sp1 = split_on(next, ':');
                assert(sp1 == sp0.push(Seq::<char>::empty()));
                assert(ok == h16_text(sp0.last()));
                assert forall|k: int| 0 <= k < count + 1 implies sp1[k] == sp0[k] by {}
                assert(sp1[count as int] == sp0.last());
                if prefix_ok && ok {
                    assert forall|k: int| 0 <= k < count + 1 implies h16_text(#[trigger] sp1[k]) by {
                        assert(sp1[k] == sp0[k]);
                    }
                }
                if !(prefix_ok && ok) {
                    if ok {
                        let k = choose|k: int| 0 <= k < count && !h16_text(#[trigger] sp0[k]);
                        assert(sp1[k] == sp0[k]);
                    }
                }
                assert(t@.subrange(i + 1, i + 1) =~= Seq::<char>::empty());
            }
            prefix_ok = prefix_ok && ok;
            count = count + 1;
            start = i + 1;
        } else {
            proof {
                let sp1 = split_on(next, ':');
                assert(sp1 == sp0.update(sp0.len() - 1, sp0.last().push(ch)));
                assert forall|k: int| 0 <= k < count implies sp1[k] == sp0[k] by {}
                assert(prefix_ok == (forall|k: int| 0 <= k < count ==> h16_text(#[trigger] sp1[k])));
                assert(t@.subrange(start as int, i + 1) =~= t@.subrange(start as int, i as int).push(ch));
            }
        }
        i += 1;
    }
    assert(t@.subrange(0, n as int) =~= t@);
    let last = t.substring_char(start, n);
    let last_h16 = is_h16(last);
    let last_v4 = is_ipv4_literal(last);
    proof {
        let sp = split_on(t@, ':');
        assert(sp == run_fields(t@));
        assert(last@ == sp.last());
        if prefix_ok && last_h16 {
            assert forall|k: int| 0 <= k < sp.len() implies h16_text(#[trigger] sp[k]) by {
                if k == count {
                    assert(sp[k] == sp.last());
                }
            }
        }
        if !prefix_ok {
            let k = choose|k: int| 0 <= k < count && !h16_text(#[trigger] sp[k]);
        }
        if !last_h16 {
            assert(!h16_text(sp[count as int]));
        }
    }
    let fields = if count < 16 {
        count + 1
    } else {
        16
    };
    (prefix_ok && (last_h16 || last_v4), prefix_ok && last_h16, fields)
}

/// Whether `s` is an IPv6 address literal.
pub fn is_ipv6_literal(s: &str) -> (r: bool)
    ensures
        r == ipv6_text(s@),
{
    let n = s.unicode_len();
    let mut i: usize = 0;
    let mut found: Option<usize> = None;
    while n > 0 && i < n - 1 && found.is_none()
        invariant
            n == s@.len(),
            i <= n,
            found is None ==> double_colon_from(s@, 0) == double_colon_from(s@, i as int),
            found matches Some(a) ==> a + 1 < n && double_colon_from(s@, 0) == Some(a as int),
        decreases n - i + (if found is None { 1int } else { 0int }),
    {
        if s.get_char(i) == ':' && s.get_char(i + 1) == ':' {
            found = Some(i);
        } else {
            i += 1;
        }
    }
    match found {
        None => {
            assert(double_colon_from(s@, i as int) is None);
            let (ok, all, len) = scan_run(s);
            let slots = if len == 0 || all { len } else { len + 1 };
            proof {
                let f = run_fields(s@);
                if len > 0 && all {
                    assert(h16_text(f[f.len() - 1]));
                }
                if ok && !all && len > 0 {
                    assert(!h16_text(f.last())) by {
                        if h16_text(f.last()) {
                            assert forall|k: int| 0 <= k < f.len() implies h16_text(#[trigger] f[k]) by {
                                if k < f.len() - 1 {
                                } else {
                                    assert(f[k] == f.last());
                                }
                            }
                        }
                    }
                }
            }
            ok && slots == 8
        },
        Some(at) => {
            let head = s.substring_char(0, at);
            let tail = s.substring_char(at + 2, n);
            let (_, head_all, head_len) = scan_run(head);
            let (tail_ok, tail_all, tail_len) = scan_run(tail);
            let tail_slots = if tail_len == 0 || tail_all { tail_len } else { tail_len + 1 };
            proof {
                let f = run_fields(tail@);
                if tail_len > 0 && tail_all {
                    assert(h16_text(f[f.len() - 1]));
                }
                if tail_ok && !tail_all && tail_len > 0 {
                    assert(!h16_text(f.last())) by {
                        if h16_text(f.last()) {
                            assert forall|k: int| 0 <= k < f.len() implies h16_text(#[trigger] f[k]) by {
                                if k < f.len() - 1 {
                                } else {
                                    assert(f[k] == f.last());
                                }
                            }
                        }
                    }
                }
            }
            head_all && tail_ok && head_len + tail_slots <= 7
        },
    }
}

} // verus!
