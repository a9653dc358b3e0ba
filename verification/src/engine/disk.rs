//! Finding the SteamOS home partition (the large ext4 the installer shrinks)
//! among the internal disk's partitions, as `lsblk` lists them.

use vstd::prelude::*;

use crate::strings::{chars_eq_str, chars_of, is_digit, is_digit_exec, parse_bounded, parse_u32, slice_chars};

verus! {

/// One partition as `lsblk` reports it.
pub struct PartitionInfo {
    /// Kernel name, such as `nvme0n1p8`.
    pub name: String,
    /// Size in bytes.
    pub size: Option<u64>,
    pub fstype: Option<String>,
    pub partlabel: Option<String>,
}

/// A partition that may be the home partition: ext4, or labelled `home`.
pub open spec fn is_home_candidate(p: PartitionInfo) -> bool {
    ||| (p.fstype matches Some(f) && f@ == "ext4"@)
    ||| (p.partlabel matches Some(l) && l@ == "home"@)
}

/// The size a partition is ranked by (0 when unknown).
pub open spec fn size_key(p: PartitionInfo) -> u64 {
    match p.size {
        Some(s) => s,
        None => 0,
    }
}

/// Whether `i` is the home partition: of the candidates, the largest, and
/// of equally large ones the last listed.
pub open spec fn is_home_pick(parts: Seq<PartitionInfo>, i: int) -> bool {
    &&& 0 <= i < parts.len()
    &&& is_home_candidate(parts[i])
    &&& forall|j: int|
        0 <= j < parts.len() && is_home_candidate(#[trigger] parts[j]) ==> size_key(parts[j])
            <= size_key(parts[i])
    &&& forall|j: int|
        i < j < parts.len() && is_home_candidate(#[trigger] parts[j]) ==> size_key(parts[j])
            < size_key(parts[i])
}

/// `s` without its leading characters that are not ASCII digits.
pub open spec fn strip_non_digits(s: Seq<char>) -> Seq<char>
    decreases s.len(),
{
    if s.len() > 0 && !is_digit(s[0]) {
        strip_non_digits(s.drop_first())
    } else {
        s
    }
}

/// The text after the last `c` (all of `s` when there is none).
pub open spec fn after_last(s: Seq<char>, c: char) -> Seq<char>
    decreases s.len(),
{
    if s.len() == 0 {
        s
    } else if s.last() == c {
        seq![]
    } else {
        after_last(s.drop_last(), c).push(s.last())
    }
}

/// The partition number read from a kernel name: skip the leading non-digits,
/// take what follows the last `p`, read it as a `u32`; if that fails, the
/// partition's 1-based position in the list.
pub open spec fn part_number(name: Seq<char>, index: int) -> int {
    match parse_bounded(after_last(strip_non_digits(name), 'p'), u32::MAX as nat) {
        Some(v) => v as int,
        None => index + 1,
    }
}

proof fn lemma_strip_skip(s: Seq<char>, k: int)
    requires
        0 <= k <= s.len(),
        forall|m: int| 0 <= m < k ==> !is_digit(#[trigger] s[m]),
        k == s.len() || is_digit(s[k]),
    ensures
        strip_non_digits(s) == s.skip(k),
    decreases k,
{
    if k == 0 {
        assert(s.skip(0) =~= s);
    } else {
        let t = s.drop_first();
        assert forall|m: int| 0 <= m < k - 1 implies !is_digit(#[trigger] t[m]) by {
            assert(t[m] == s[m + 1]);
        }
        lemma_strip_skip(t, k - 1);
        assert(t.skip(k - 1) =~= s.skip(k));
    }
}

proof fn lemma_after_last_skip(s: Seq<char>, c: char, j: int)
    requires
        0 <= j <= s.len(),
        forall|m: int| j <= m < s.len() ==> #[trigger] s[m] != c,
        j == 0 || s[j - 1] == c,
    ensures
        after_last(s, c) == s.skip(j),
    decreases s.len(),
{
    if s.len() == j {
        assert(s.skip(j) =~= Seq::<char>::empty());
        if s.len() == 0 {
            assert(after_last(s, c) =~= s);
        }
    } else {
        let t = s.drop_last();
        assert(s.last() == s[s.len() - 1]);
        lemma_after_last_skip(t, c, j);
        assert(t.skip(j).push(s.last()) =~= s.skip(j));
    }
}

/// [`part_number`].
pub fn partition_number(name: &str, index: usize) -> (n: u32)
    requires
        index < u32::MAX,
    ensures
        n == part_number(name@, index as int),
{
    let v = chars_of(name);
    let mut k: usize = 0;
    while k < v.len() && !is_digit_exec(v[k])
        invariant
            k <= v.len(),
            forall|m: int| 0 <= m < k ==> !is_digit(#[trigger] v@[m]),
        decreases v.len() - k,
    {
        k = k + 1;
    }
    proof {
        lemma_strip_skip(v@, k as int);
    }
    let mut j: usize = v.len();
    while j > k && v[j - 1] != 'p'
        invariant
            k <= j <= v.len(),
            forall|m: int| j <= m < v.len() ==> #[trigger] v@[m] != 'p',
        decreases j,
    {
        j = j - 1;
    }
    proof {
        let t = v@.skip(k as int);
        assert forall|m: int| j - k <= m < t.len() implies #[trigger] t[m] != 'p' by {
            assert(t[m] == v@[m + k]);
        }
        if j > k {
            assert(t[j - k - 1] == v@[j - 1]);
        }
        lemma_after_last_skip(t, 'p', j - k);
        assert(t.skip(j - k) =~= v@.subrange(j as int, v.len() as int));
    }
    let tail = slice_chars(&v, j, v.len());
    match parse_u32(&tail) {
        Some(n) => n,
        None => (index as u32) + 1,
    }
}

fn is_candidate(p: &PartitionInfo) -> (r: bool)
    ensures
        r == is_home_candidate(*p),
{
    let ext4 = match &p.fstype {
        Some(f) => chars_eq_str(&chars_of(f.as_str()), "ext4"),
        None => false,
    };
    let home = match &p.partlabel {
        Some(l) => chars_eq_str(&chars_of(l.as_str()), "home"),
        None => false,
    };
    ext4 || home
}

fn key_of(p: &PartitionInfo) -> (k: u64)
    ensures
        k == size_key(*p),
{
    match p.size {
        Some(s) => s,
        None => 0,
    }
}

/// The home partition found.
pub struct HomePartition {
    /// Its position in the list.
    pub index: usize,
    /// Its size in bytes.
    pub size: u64,
    /// Its partition number.
    pub number: u32,
}

/// Finds the home partition: the largest ext4 or `home`-labelled partition
/// (the last of equally large ones), with its size and partition number.
/// `None` when there is no candidate or the chosen one has no known size.
pub fn find_home(parts: &Vec<PartitionInfo>) -> (r: Option<HomePartition>)
    requires
        parts.len() < u32::MAX,
    ensures
        r is None <==> forall|i: int| is_home_pick(parts@, i) ==> parts@[i].size is None,
        r matches Some(h) ==> {
            &&& is_home_pick(parts@, h.index as int)
            &&& parts@[h.index as int].size == Some(h.size)
            &&& h.number == part_number(parts@[h.index as int].name@, h.index as int)
        },
{
    let mut best: Option<usize> = None;
    let mut i: usize = 0;
    while i < parts.len()
        invariant
            i <= parts.len(),
            best matches Some(b) ==> {
                &&& b < i
                &&& is_home_candidate(parts@[b as int])
                &&& forall|j: int|
                    0 <= j < i && is_home_candidate(#[trigger] parts@[j]) ==> size_key(parts@[j])
                        <= size_key(parts@[b as int])
                &&& forall|j: int|
                    b < j < i && is_home_candidate(#[trigger] parts@[j]) ==> size_key(parts@[j])
                        < size_key(parts@[b as int])
            },
            best is None ==> forall|j: int| 0 <= j < i ==> !is_home_candidate(#[trigger] parts@[j]),
        decreases parts.len() - i,
    {
        if is_candidate(&parts[i]) {
            match best {
                None => {
                    best = Some(i);
                },
                Some(b) => {
                    if key_of(&parts[i]) >= key_of(&parts[b]) {
                        best = Some(i);
                    }
                },
            }
        }
        i = i + 1;
    }
    match best {
        None => {
            assert forall|k: int| is_home_pick(parts@, k) implies parts@[k].size is None by {
                assert(!is_home_candidate(parts@[k]));
            }
            None
        },
        Some(b) => {
            assert(is_home_pick(parts@, b as int));
            assert forall|k: int| is_home_pick(parts@, k) implies k == b by {
                if k < b {
                    assert(size_key(parts@[b as int]) < size_key(parts@[k]));
                } else if k > b {
                    assert(size_key(parts@[k]) < size_key(parts@[b as int]));
                }
            }
            match parts[b].size {
                None => None,
                Some(s) => {
                    let number = partition_number(parts[b].name.as_str(), b);
                    Some(HomePartition { index: b, size: s, number })
                },
            }
        },
    }
}

} // verus!
