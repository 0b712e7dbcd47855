use vstd::prelude::*;
use vstd::string::*;
use crate::attrs::IndexAttr;
use crate::descriptor::Field;

verus! {

/// The items of a comma-separated list, empty ones included.
pub open spec fn split_commas(s: Seq<char>) -> Seq<Seq<char>>
    decreases s.len(),
{
    if s.len() == 0 {
        seq![Seq::empty()]
    } else {
        let p = split_commas(s.drop_last());
        if s.last() == ',' {
            p.push(Seq::empty())
        } else {
            p.update(p.len() - 1, p.last().push(s.last()))
        }
    }
}

pub open spec fn trim_start(s: Seq<char>) -> Seq<char>
    decreases s.len(),
{
    if s.len() > 0 && s[0] == ' ' {
        trim_start(s.drop_first())
    } else {
        s
    }
}

pub open spec fn trim_end(s: Seq<char>) -> Seq<char>
    decreases s.len(),
{
    if s.len() > 0 && s.last() == ' ' {
        trim_end(s.drop_last())
    } else {
        s
    }
}

/// A list item without its surrounding spaces.
pub open spec fn trim(s: Seq<char>) -> Seq<char> {
    trim_end(trim_start(s))
}

/// An index column names a stored field.
pub open spec fn column_ok(item: Seq<char>, fs: Seq<Field>) -> bool {
    exists|i: int| 0 <= i < fs.len() && !fs[i].ignored && #[trigger] fs[i].name@ == trim(item)
}

/// Every item of the column list names a stored field.
pub open spec fn columns_ok(cols: Seq<char>, fs: Seq<Field>) -> bool {
    forall|k: int| 0 <= k < split_commas(cols).len() ==> column_ok(#[trigger] split_commas(cols)[k], fs)
}

pub open spec fn indexes_ok(ixs: Seq<IndexAttr>, fs: Seq<Field>) -> bool {
    forall|k: int| 0 <= k < ixs.len() ==> columns_ok(#[trigger] ixs[k].columns@, fs)
}

proof fn lemma_split_nonempty(s: Seq<char>)
    ensures
        split_commas(s).len() >= 1,
    decreases s.len(),
{
    if s.len() > 0 {
        lemma_split_nonempty(s.drop_last());
    }
}

fn trim_spaces(s: &str) -> (r: &str)
    ensures
        r@ == trim(s@),
{
    let n = s.unicode_len();
    let mut a: usize = 0;
    assert(s@.subrange(0, n as int) =~= s@);
    while a < n && s.get_char(a) == ' '
        invariant
            n == s@.len(),
            a <= n,
            trim_start(s@) == trim_start(s@.subrange(a as int, n as int)),
        decreases n - a,
    {
        assert(s@.subrange(a as int, n as int).drop_first() =~= s@.subrange(a + 1, n as int));
        a = a + 1;
    }
    let mut b: usize = n;
    while b > a && s.get_char(b - 1) == ' '
        invariant
            n == s@.len(),
            a <= b <= n,
            trim_end(s@.subrange(a as int, n as int)) == trim_end(s@.subrange(a as int, b as int)),
        decreases b - a,
    {
        assert(s@.subrange(a as int, b as int).drop_last() =~= s@.subrange(a as int, b - 1));
        b = b - 1;
    }
    assert(trim_start(s@.subrange(a as int, n as int)) == s@.subrange(a as int, n as int));
    s.substring_char(a, b)
}

fn column_named(item: &str, fs: &Vec<Field>) -> (r: bool)
    ensures
        r == column_ok(item@, fs@),
{
    let t = trim_spaces(item);
    let mut i: usize = 0;
    while i < fs.len()
        invariant
            i <= fs@.len(),
            t@ == trim(item@),
            forall|j: int| 0 <= j < i ==> !(!fs@[j].ignored && fs@[j].name@ == trim(item@)),
        decreases fs@.len() - i,
    {
        if !fs[i].ignored && str_eq(fs[i].name.as_str(), t) {
            return true;
        }
        i = i + 1;
    }
    false
}

fn str_eq(a: &str, b: &str) -> (r: bool)
    ensures
        r == (a@ == b@),
{
    let n = a.unicode_len();
    if n != b.unicode_len() {
        return false;
    }
    let mut i: usize = 0;
    while i < n
        invariant
            n == a@.len() == b@.len(),
            i <= n,
            forall|j: int| 0 <= j < i ==> a@[j] == b@[j],
        decreases n - i,
    {
        if a.get_char(i) != b.get_char(i) {
            return false;
        }
        i = i + 1;
    }
    assert(a@ =~= b@);
    true
}

/// Whether every item of a comma-separated column list names a stored field.
pub fn columns_valid(cols: &str, fs: &Vec<Field>) -> (r: bool)
    ensures
        r == columns_ok(cols@, fs@),
{
    let n = cols.unicode_len();
    let mut start: usize = 0;
    let mut i: usize = 0;
    proof {
        assert(cols@.subrange(0, 0) =~= Seq::<char>::empty());
    }
    while i < n
        invariant
            n == cols@.len(),
            start <= i <= n,
            split_commas(cols@.subrange(0, i as int)).len() >= 1,
            split_commas(cols@.subrange(0, i as int)).last() == cols@.subrange(start as int, i as int),
            forall|k: int| 0 <= k < split_commas(cols@.subrange(0, i as int)).len() - 1
                ==> column_ok(#[trigger] split_commas(cols@.subrange(0, i as int))[k], fs@),
        decreases n - i,
    {
        let ghost pre = cols@.subrange(0, i as int);
        let ghost nxt = cols@.subrange(0, i + 1);
        assert(nxt.drop_last() =~= pre);
        assert(nxt.last() == cols@[i as int]);
        let c = cols.get_char(i);
        if c == ',' {
            let item = cols.substring_char(start, i);
            if !column_named(item, fs) {
                proof {
                    lemma_split_grows_bad(cols@, i as int + 1, split_commas(pre).len() - 1, fs@);
                }
                return false;
            }
            assert forall|k: int| 0 <= k < split_commas(nxt).len() - 1
                implies column_ok(#[trigger] split_commas(nxt)[k], fs@) by {
                assert(split_commas(nxt)[k] == split_commas(pre)[k]);
            }
            start = i + 1;
            assert(cols@.subrange(start as int, i + 1) =~= Seq::<char>::empty());
        } else {
            assert(cols@.subrange(start as int, i + 1) =~= cols@.subrange(start as int, i as int).push(c));
            assert forall|k: int| 0 <= k < split_commas(nxt).len() - 1
                implies column_ok(#[trigger] split_commas(nxt)[k], fs@) by {
                assert(split_commas(nxt)[k] == split_commas(pre)[k]);
            }
        }
        i = i + 1;
    }
    assert(cols@.subrange(0, n as int) =~= cols@);
    let last = cols.substring_char(start, n);
    let ok = column_named(last, fs);
    proof {
        let items = split_commas(cols@);
        if ok {
            assert forall|k: int| 0 <= k < items.len() implies column_ok(#[trigger] items[k], fs@) by {
                if k == items.len() - 1 {
                    assert(items[k] == items.last());
                }
            }
        } else {
            assert(items[items.len() - 1] == items.last());
            assert(!column_ok(items[items.len() - 1], fs@));
        }
    }
    ok
}

/// A bad item stays an item of the list as it grows.
proof fn lemma_split_grows_bad(s: Seq<char>, i: int, k: int, fs: Seq<Field>)
    requires
        0 < i <= s.len(),
        0 <= k < split_commas(s.subrange(0, i)).len() - 1,
        !column_ok(split_commas(s.subrange(0, i))[k], fs),
    ensures
        !columns_ok(s, fs),
    decreases s.len() - i,
{
    if i == s.len() {
        assert(s.subrange(0, i) =~= s);
    } else {
        let nxt = s.subrange(0, i + 1);
        assert(nxt.drop_last() =~= s.subrange(0, i));
        lemma_split_nonempty(s.subrange(0, i));
        assert(split_commas(nxt)[k] == split_commas(s.subrange(0, i))[k]);
        lemma_split_grows_bad(s, i + 1, k, fs);
    }
}

/// Whether every index's column list names stored fields.
pub fn indexes_valid(ixs: &Vec<IndexAttr>, fs: &Vec<Field>) -> (r: bool)
    ensures
        r == indexes_ok(ixs@, fs@),
{
    let mut k: usize = 0;
    while k < ixs.len()
        invariant
            k <= ixs@.len(),
            forall|j: int| 0 <= j < k ==> columns_ok(#[trigger] ixs@[j].columns@, fs@),
        decreases ixs@.len() - k,
    {
        if !columns_valid(ixs[k].columns.as_str(), fs) {
            return false;
        }
        k = k + 1;
    }
    true
}

} // verus!
