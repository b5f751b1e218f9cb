//! The order of file names: the order of their UTF-8 bytes, which is the
//! order `String` has in Rust; and the sorted, duplicate-free list of names.

use vstd::prelude::*;
use vstd::utf8::encode_utf8;
use vstd::utf8::encode_utf8_decode_utf8;

verus! {

/// `a` comes before `b` in lexicographic byte order.
pub open spec fn bytes_before(a: Seq<u8>, b: Seq<u8>) -> bool
    decreases a.len(),
{
    if a.len() == 0 {
        b.len() > 0
    } else if b.len() == 0 {
        false
    } else if a[0] != b[0] {
        a[0] < b[0]
    } else {
        bytes_before(a.drop_first(), b.drop_first())
    }
}

/// The name `a` sorts before the name `b`: its UTF-8 bytes come first.
pub open spec fn name_before(a: Seq<char>, b: Seq<char>) -> bool {
    bytes_before(encode_utf8(a), encode_utf8(b))
}

/// Every name comes strictly before the ones after it: the list is sorted
/// and holds no name twice.
pub open spec fn strictly_sorted(names: Seq<Seq<char>>) -> bool {
    forall|i: int, j: int| 0 <= i < j < names.len() ==> name_before(names[i], names[j])
}

/// The texts of a list of strings.
pub open spec fn texts(v: Seq<String>) -> Seq<Seq<char>> {
    v.map_values(|s: String| s@)
}

pub proof fn lemma_bytes_before_irreflexive(a: Seq<u8>)
    ensures
        !bytes_before(a, a),
    decreases a.len(),
{
    if a.len() > 0 {
        lemma_bytes_before_irreflexive(a.drop_first());
    }
}

pub proof fn lemma_bytes_before_transitive(a: Seq<u8>, b: Seq<u8>, c: Seq<u8>)
    requires
        bytes_before(a, b),
        bytes_before(b, c),
    ensures
        bytes_before(a, c),
    decreases a.len(),
{
    if a.len() > 0 && b.len() > 0 && c.len() > 0 && a[0] == b[0] && b[0] == c[0] {
        lemma_bytes_before_transitive(a.drop_first(), b.drop_first(), c.drop_first());
    }
}

pub proof fn lemma_bytes_before_total(a: Seq<u8>, b: Seq<u8>)
    ensures
        a == b || bytes_before(a, b) || bytes_before(b, a),
    decreases a.len(),
{
    if a.len() > 0 && b.len() > 0 && a[0] == b[0] {
        lemma_bytes_before_total(a.drop_first(), b.drop_first());
        if a.drop_first() == b.drop_first() {
            assert(a =~= seq![a[0]] + a.drop_first());
            assert(b =~= seq![b[0]] + b.drop_first());
        }
    } else if a.len() == 0 && b.len() == 0 {
        assert(a =~= b);
    }
}

pub proof fn lemma_bytes_before_asymmetric(a: Seq<u8>, b: Seq<u8>)
    requires
        bytes_before(a, b),
    ensures
        !bytes_before(b, a),
{
    if bytes_before(b, a) {
        lemma_bytes_before_transitive(a, b, a);
        lemma_bytes_before_irreflexive(a);
    }
}

/// Comparing from a common prefix on decides as comparing the whole.
proof fn lemma_bytes_before_skip(a: Seq<u8>, b: Seq<u8>, i: int)
    requires
        0 <= i <= a.len(),
        i <= b.len(),
        a.take(i) == b.take(i),
    ensures
        bytes_before(a, b) == bytes_before(a.skip(i), b.skip(i)),
    decreases i,
{
    if i > 0 {
        assert(a[0] == a.take(i)[0]);
        assert(b[0] == b.take(i)[0]);
        assert(a.drop_first().take(i - 1) =~= a.take(i).drop_first());
        assert(b.drop_first().take(i - 1) =~= b.take(i).drop_first());
        lemma_bytes_before_skip(a.drop_first(), b.drop_first(), i - 1);
        assert(a.drop_first().skip(i - 1) =~= a.skip(i));
        assert(b.drop_first().skip(i - 1) =~= b.skip(i));
    } else {
        assert(a.skip(0) =~= a);
        assert(b.skip(0) =~= b);
    }
}

pub proof fn lemma_name_before_irreflexive(a: Seq<char>)
    ensures
        !name_before(a, a),
{
    lemma_bytes_before_irreflexive(encode_utf8(a));
}

pub proof fn lemma_name_before_transitive(a: Seq<char>, b: Seq<char>, c: Seq<char>)
    requires
        name_before(a, b),
        name_before(b, c),
    ensures
        name_before(a, c),
{
    lemma_bytes_before_transitive(encode_utf8(a), encode_utf8(b), encode_utf8(c));
}

pub proof fn lemma_name_before_total(a: Seq<char>, b: Seq<char>)
    ensures
        a == b || name_before(a, b) || name_before(b, a),
{
    lemma_bytes_before_total(encode_utf8(a), encode_utf8(b));
    if encode_utf8(a) == encode_utf8(b) {
        encode_utf8_decode_utf8(a);
        encode_utf8_decode_utf8(b);
    }
}

pub proof fn lemma_name_before_asymmetric(a: Seq<char>, b: Seq<char>)
    requires
        name_before(a, b),
    ensures
        !name_before(b, a),
{
    lemma_bytes_before_asymmetric(encode_utf8(a), encode_utf8(b));
}

/// How `a` and `b` compare as names: below zero when `a` comes first, zero
/// when they are the same text, above zero when `b` comes first.
pub fn compare_names(a: &str, b: &str) -> (r: i8)
    ensures
        r < 0 <==> name_before(a@, b@),
        r == 0 <==> a@ == b@,
        r > 0 <==> name_before(b@, a@),
{
    let x = a.as_bytes();
    let y = b.as_bytes();
    let ghost ex = encode_utf8(a@);
    let ghost ey = encode_utf8(b@);
    let n = if x.len() < y.len() {
        x.len()
    } else {
        y.len()
    };
    let mut i: usize = 0;
    proof {
        assert(ex.take(0) =~= ey.take(0));
    }
    while i < n
        invariant
            x@ == ex,
            y@ == ey,
            ex == encode_utf8(a@),
            ey == encode_utf8(b@),
            n <= x@.len(),
            n <= y@.len(),
            i <= n,
            ex.take(i as int) == ey.take(i as int),
        decreases n - i,
    {
        if x[i] != y[i] {
            proof {
                lemma_bytes_before_skip(ex, ey, i as int);
                let sx = ex.skip(i as int);
                let sy = ey.skip(i as int);
                assert(sx[0] == ex[i as int]);
                assert(sy[0] == ey[i as int]);
                assert(bytes_before(sx, sy) == (sx[0] < sy[0]));
                assert(bytes_before(sy, sx) == (sy[0] < sx[0]));
                lemma_bytes_before_skip(ey, ex, i as int);
                lemma_name_before_total(a@, b@);
                lemma_name_before_irreflexive(a@);
            }
            if x[i] < y[i] {
                proof {
                    lemma_name_before_asymmetric(a@, b@);
                }
                return -1;
            } else {
                proof {
                    lemma_name_before_asymmetric(b@, a@);
                }
                return 1;
            }
        }
        proof {
            assert(ex.take(i + 1) =~= ex.take(i as int).push(ex[i as int]));
            assert(ey.take(i + 1) =~= ey.take(i as int).push(ey[i as int]));
        }
        i = i + 1;
    }
    proof {
        lemma_bytes_before_skip(ex, ey, i as int);
        lemma_bytes_before_skip(ey, ex, i as int);
        lemma_name_before_total(a@, b@);
        lemma_name_before_irreflexive(a@);
    }
    if x.len() == y.len() {
        proof {
            assert(ex =~= ex.take(i as int));
            assert(ey =~= ey.take(i as int));
            encode_utf8_decode_utf8(a@);
            encode_utf8_decode_utf8(b@);
        }
        0
    } else if x.len() < y.len() {
        proof {
            lemma_name_before_asymmetric(a@, b@);
        }
        -1
    } else {
        proof {
            lemma_name_before_asymmetric(b@, a@);
        }
        1
    }
}


/// A strictly sorted list of names is determined by the names it holds: two
/// such lists with the same names are the same list. So the order in which
/// names are given never changes the sorted list made of them.
pub proof fn lemma_sorted_names_determined(x: Seq<Seq<char>>, y: Seq<Seq<char>>)
    requires
        strictly_sorted(x),
        strictly_sorted(y),
        x.to_set() == y.to_set(),
    ensures
        x == y,
    decreases x.len(),
{
    assert forall|z: Seq<char>| x.contains(z) == y.contains(z) by {
        assert(x.to_set().contains(z) == x.contains(z));
        assert(y.to_set().contains(z) == y.contains(z));
    }
    if x.len() == 0 || y.len() == 0 {
        if x.len() > 0 {
            assert(x.contains(x[0]));
        }
        if y.len() > 0 {
            assert(y.contains(y[0]));
        }
        assert(x =~= y);
    } else {
        assert(x[0] == y[0]) by {
            assert(x.contains(y[0]));
            assert(y.contains(x[0]));
            let k = choose|k: int| 0 <= k < x.len() && x[k] == y[0];
            let m = choose|m: int| 0 <= m < y.len() && y[m] == x[0];
            if k > 0 && m > 0 {
                lemma_name_before_asymmetric(x[0], y[0]);
            }
        }
        let xs = x.drop_first();
        let ys = y.drop_first();
        assert forall|z: Seq<char>| xs.to_set().contains(z) == ys.to_set().contains(z) by {
            if xs.contains(z) {
                let k = choose|k: int| 0 <= k < xs.len() && xs[k] == z;
                assert(x[k + 1] == z);
                assert(y.contains(z));
                let m = choose|m: int| 0 <= m < y.len() && y[m] == z;
                if m == 0 {
                    lemma_name_before_irreflexive(x[0]);
                }
                assert(ys[m - 1] == z);
            }
            if ys.contains(z) {
                let m = choose|m: int| 0 <= m < ys.len() && ys[m] == z;
                assert(y[m + 1] == z);
                assert(x.contains(z));
                let k = choose|k: int| 0 <= k < x.len() && x[k] == z;
                if k == 0 {
                    lemma_name_before_irreflexive(y[0]);
                }
                assert(xs[k - 1] == z);
            }
        }
        assert(xs.to_set() =~= ys.to_set());
        lemma_sorted_names_determined(xs, ys);
        assert forall|i: int| 0 <= i < x.len() implies x[i] == y[i] by {
            if i > 0 {
                assert(x[i] == xs[i - 1]);
                assert(y[i] == ys[i - 1]);
            }
        }
        assert(x.len() == y.len());
        assert(x =~= y);
    }
}

/// Inserting a name where every name before it is smaller and the name at
/// that place is larger keeps a list strictly sorted.
proof fn lemma_insert_keeps_sorted(t: Seq<Seq<char>>, j: int, x: Seq<char>)
    requires
        strictly_sorted(t),
        0 <= j <= t.len(),
        forall|m: int| 0 <= m < j ==> name_before(#[trigger] t[m], x),
        j < t.len() ==> name_before(x, t[j]),
    ensures
        strictly_sorted(t.insert(j, x)),
{
    let u = t.insert(j, x);
    t.insert_ensures(j, x);
    assert forall|p: int, q: int| 0 <= p < q < u.len() implies name_before(u[p], u[q]) by {
        if q < j {
            assert(u[p] == t[p] && u[q] == t[q]);
        } else if q == j {
            assert(u[p] == t[p]);
        } else if p < j {
            assert(u[p] == t[p] && u[q] == t[q - 1]);
        } else if p == j {
            assert(u[q] == t[q - 1]);
            if q - 1 > j {
                lemma_name_before_transitive(x, t[j], t[q - 1]);
            }
        } else {
            assert(u[p] == t[p - 1] && u[q] == t[q - 1]);
        }
    }
}

/// The names of `names`, sorted in byte order, each once: what the keys of a
/// `BTreeMap<String, _>` filled with these names would be, in their order.
pub fn sorted_names(names: &Vec<String>) -> (out: Vec<String>)
    ensures
        strictly_sorted(texts(out@)),
        texts(out@).to_set() == texts(names@).to_set(),
{
    let mut out: Vec<String> = Vec::new();
    let n = names.len();
    for k in 0..n
        invariant
            n == names@.len(),
            strictly_sorted(texts(out@)),
            forall|x: Seq<char>|
                #![trigger texts(out@).contains(x)]
                #![trigger texts(names@).take(k as int).contains(x)]
                texts(out@).contains(x) == texts(names@).take(k as int).contains(x),
    {
        let name = names[k].clone();
        let ghost t = texts(out@);
        let mut j: usize = 0;
        let mut found = false;
        loop
            invariant_except_break
                !found,
            invariant
                t == texts(out@),
                j <= out@.len(),
                forall|m: int| 0 <= m < j ==> name_before(#[trigger] t[m], name@),
            ensures
                t == texts(out@),
                j <= out@.len(),
                forall|m: int| 0 <= m < j ==> name_before(#[trigger] t[m], name@),
                found ==> j < out@.len() && t[j as int] == name@,
                !found ==> j < out@.len() ==> name_before(name@, t[j as int]),
            decreases out@.len() - j,
        {
            if j == out.len() {
                break;
            }
            let c = compare_names(out[j].as_str(), name.as_str());
            if c < 0 {
                j = j + 1;
            } else {
                found = c == 0;
                break;
            }
        }
        let ghost before = texts(names@).take(k as int);
        let ghost after = texts(names@).take(k + 1);
        proof {
            assert(after =~= before.push(name@));
            assert forall|x: Seq<char>| t.contains(x) == before.contains(x) by {
                assert(texts(out@).contains(x) == texts(names@).take(k as int).contains(x));
            }
        }
        if !found {
            out.insert(j, name);
            proof {
                lemma_insert_keeps_sorted(t, j as int, name@);
                assert(texts(out@) =~= t.insert(j as int, name@));
                t.insert_ensures(j as int, name@);
                assert forall|x: Seq<char>| texts(out@).contains(x) == after.contains(x) by {
                    let u = texts(out@);
                    if u.contains(x) {
                        let i = choose|i: int| 0 <= i < u.len() && u[i] == x;
                        if i < j {
                            assert(t[i] == x);
                            assert(t.contains(x));
                            let w = choose|w: int| 0 <= w < before.len() && before[w] == x;
                            assert(after[w] == x);
                        } else if i == j {
                            assert(after[k as int] == x);
                        } else {
                            assert(t[i - 1] == x);
                            assert(t.contains(x));
                            let w = choose|w: int| 0 <= w < before.len() && before[w] == x;
                            assert(after[w] == x);
                        }
                    }
                    if after.contains(x) {
                        let w = choose|w: int| 0 <= w < after.len() && after[w] == x;
                        if w < k {
                            assert(before[w] == x);
                            assert(before.contains(x));
                            let i = choose|i: int| 0 <= i < t.len() && t[i] == x;
                            if i < j {
                                assert(u[i] == x);
                            } else {
                                assert(u[i + 1] == x);
                            }
                        } else {
                            assert(u[j as int] == x);
                        }
                    }
                }
            }
        } else {
            proof {
                assert forall|x: Seq<char>| texts(out@).contains(x) == after.contains(x) by {
                    if t.contains(x) {
                        let i = choose|i: int| 0 <= i < t.len() && t[i] == x;
                        assert(before.contains(x));
                        let w = choose|w: int| 0 <= w < before.len() && before[w] == x;
                        assert(after[w] == x);
                    }
                    if after.contains(x) {
                        let w = choose|w: int| 0 <= w < after.len() && after[w] == x;
                        if w < k {
                            assert(before[w] == x);
                            assert(before.contains(x));
                        } else {
                            assert(t[j as int] == x);
                        }
                    }
                }
            }
        }
    }
    proof {
        assert(texts(names@).take(n as int) =~= texts(names@));
        assert(texts(out@).to_set() =~= texts(names@).to_set());
    }
    out
}

} // verus!
