//! The names of saved files.

use vstd::prelude::*;

use crate::decimal;
use crate::decimal::append_decimal;
use crate::platform::Os;

verus! {

/// What the save dialog answers when the user has chosen a place.
pub const RESPONSE_OK: i64 = 1;

/// The name of the first file of a second, or of the `n`th further one.
pub open spec fn candidate(stamp: u64, n: u64) -> Seq<char> {
    let start = "PinWall-"@ + decimal::decimal(stamp as nat);
    if n == 0 {
        start + ".png"@
    } else {
        start + "-"@ + decimal::decimal(n as nat) + ".png"@
    }
}

/// The seconds since the epoch, or zero where the clock is before it.
pub open spec fn seconds(since_epoch: Option<u64>) -> u64 {
    match since_epoch {
        Some(s) => s,
        None => 0,
    }
}

/// `n` is the first one whose name is not in use.
pub open spec fn is_first_free(stamp: u64, names: Seq<Seq<char>>, n: u64) -> bool {
    &&& !names.contains(candidate(stamp, n))
    &&& forall|m: u64| m < n ==> names.contains(#[trigger] candidate(stamp, m))
}

pub open spec fn contents(names: Seq<String>) -> Seq<Seq<char>> {
    names.map_values(|s: String| s@)
}

/// The name of the first file of a second, or of the `n`th further one.
pub fn candidate_name(stamp: u64, n: u64) -> (r: String)
    ensures
        r@ == candidate(stamp, n),
{
    let mut name: String = "PinWall-".to_owned();
    append_decimal(&mut name, stamp);
    if n > 0 {
        name.append("-");
        append_decimal(&mut name, n);
    }
    name.append(".png");
    name
}

/// The name that the save dialog proposes, given the seconds since the epoch.
pub fn default_file_name(since_epoch: Option<u64>) -> (r: String)
    ensures
        r@ == candidate(seconds(since_epoch), 0),
{
    let stamp: u64 = match since_epoch {
        Some(s) => s,
        None => 0,
    };
    candidate_name(stamp, 0)
}

fn is_taken(names: &[String], name: &String) -> (r: bool)
    ensures
        r == contents(names@).contains(name@),
{
    let mut i: usize = 0;
    while i < names.len()
        invariant
            i <= names@.len(),
            forall|k: int| 0 <= k < i ==> (#[trigger] names@[k])@ != name@,
        decreases names@.len() - i,
    {
        if names[i] == *name {
            proof {
                assert(contents(names@)[i as int] == name@);
            }
            return true;
        }
        i = i + 1;
    }
    proof {
        if contents(names@).contains(name@) {
            let k = choose|k: int|
                0 <= k < contents(names@).len() && contents(names@)[k] == name@;
            assert(names@[k]@ == name@);
        }
    }
    false
}

/// Two files of one second have different names.
pub proof fn law_candidates_are_distinct(stamp: u64, m: u64, n: u64)
    requires
        candidate(stamp, m) == candidate(stamp, n),
    ensures
        m == n,
{
    reveal_strlit("-");
    reveal_strlit(".png");
    let start = "PinWall-"@ + decimal::decimal(stamp as nat);
    let a = candidate(stamp, m);
    let b = candidate(stamp, n);
    if m == 0 && n > 0 {
        assert(a[start.len() as int] == '.');
        assert(b[start.len() as int] == '-');
    } else if m > 0 && n == 0 {
        assert(a[start.len() as int] == '-');
        assert(b[start.len() as int] == '.');
    } else if m > 0 && n > 0 {
        let from = start.len() + 1;
        let dm = decimal::decimal(m as nat);
        let dn = decimal::decimal(n as nat);
        assert(a.len() == from + dm.len() + 4);
        assert(b.len() == from + dn.len() + 4);
        assert(a.subrange(from as int, (from + dm.len()) as int) =~= dm);
        assert(b.subrange(from as int, (from + dn.len()) as int) =~= dn);
        decimal::law_decimal_is_injective(m as nat, n as nat);
    }
}

/// Files of different seconds have different names.
pub proof fn law_seconds_are_distinct(s: u64, t: u64)
    requires
        candidate(s, 0) == candidate(t, 0),
    ensures
        s == t,
{
    reveal_strlit("PinWall-");
    reveal_strlit(".png");
    let ds = decimal::decimal(s as nat);
    let dt = decimal::decimal(t as nat);
    assert(candidate(s, 0).len() == 8 + ds.len() + 4);
    assert(candidate(t, 0).len() == 8 + dt.len() + 4);
    assert(candidate(s, 0).subrange(8, (8 + ds.len()) as int) =~= ds);
    assert(candidate(t, 0).subrange(8, (8 + dt.len()) as int) =~= dt);
    decimal::law_decimal_is_injective(s as nat, t as nat);
}

/// Among more candidates than there are names, one is not in use.
proof fn lemma_some_candidate_is_free(stamp: u64, names: Seq<Seq<char>>, count: u64)
    requires
        count > names.len(),
    ensures
        exists|m: u64| m < count && !names.contains(#[trigger] candidate(stamp, m)),
{
    if forall|m: u64| m < count ==> names.contains(#[trigger] candidate(stamp, m)) {
        let tried = Seq::new(count as nat, |m: int| candidate(stamp, m as u64));
        assert(tried.no_duplicates()) by {
            assert forall|i: int, j: int|
                0 <= i < tried.len() && 0 <= j < tried.len() && i != j implies tried[i]
                != tried[j] by {
                if tried[i] == tried[j] {
                    law_candidates_are_distinct(stamp, i as u64, j as u64);
                }
            }
        }
        tried.unique_seq_to_set();
        names.lemma_cardinality_of_set();
        assert(tried.to_set().subset_of(names.to_set())) by {
            assert forall|s: Seq<char>| tried.to_set().contains(s) implies names.to_set().contains(
                s,
            ) by {
                let m = choose|m: int| 0 <= m < tried.len() && tried[m] == s;
                assert(names.contains(candidate(stamp, m as u64)));
            }
        }
        vstd::seq_lib::seq_to_set_is_finite(names);
        vstd::set_lib::lemma_len_subset(tried.to_set(), names.to_set());
    }
}

/// A name for a file that is saved without asking: the first one that no file in
/// the directory has, so that saving twice within a second overwrites nothing.
pub fn free_name(stamp: u64, names: &[String]) -> (r: String)
    requires
        names@.len() < u64::MAX,
    ensures
        exists|n: u64| #[trigger]
            is_first_free(stamp, contents(names@), n) && r@ == candidate(stamp, n),
{
    let mut n: u64 = 0;
    let mut name: String = candidate_name(stamp, n);
    while is_taken(names, &name)
        invariant
            names@.len() < u64::MAX,
            name@ == candidate(stamp, n),
            n <= names@.len(),
            forall|m: u64|
                m < n ==> contents(names@).contains(#[trigger] candidate(stamp, m)),
        decreases names@.len() - n,
    {
        proof {
            if n == names@.len() {
                lemma_some_candidate_is_free(stamp, contents(names@), (n + 1) as u64);
            }
        }
        n = n + 1;
        name = candidate_name(stamp, n);
    }
    proof {
        assert(is_first_free(stamp, contents(names@), n));
    }
    name
}

/// Where a file is saved without asking.
#[derive(Debug, Clone, Copy, PartialEq, Eq, Structural)]
pub enum SavePlace {
    /// The desktop of the user.
    Desktop,
    /// The working directory.
    Current,
}

/// Chooses where a file is saved without asking: on the desktop, where captures
/// usually go, unless the user has none. `desktop` says whether the path of the
/// desktop is a directory, `None` stands for a user without a home.
pub fn save_place(desktop: Option<bool>) -> (r: SavePlace)
    ensures
        r == if desktop == Some(true) {
            SavePlace::Desktop
        } else {
            SavePlace::Current
        },
{
    match desktop {
        Some(true) => SavePlace::Desktop,
        _ => SavePlace::Current,
    }
}

/// The path that the user has chosen in the save dialog, given what the dialog
/// answered. There is no dialog but on a Mac, and there none but on the main
/// thread.
pub fn ask_save_path(os: Os, on_main_thread: bool, response: i64, path: Option<String>) -> (r:
    Option<String>)
    ensures
        r == if os == Os::Mac && on_main_thread && response == RESPONSE_OK {
            path
        } else {
            None
        },
{
    if os == Os::Mac && on_main_thread && response == RESPONSE_OK {
        path
    } else {
        None
    }
}

/// The name of a file starts with the name of the program and ends as an image file
/// does, with nothing but digits and hyphens between.
pub proof fn law_a_file_name_tells_its_program_and_format(stamp: u64, n: u64, i: int)
    ensures
        ({
            let name = candidate(stamp, n);
            &&& name.len() >= 13
            &&& name.take(8) == "PinWall-"@
            &&& name.skip(name.len() - 4) == ".png"@
            &&& 8 <= i < name.len() - 4 ==> ('0' <= name[i] && name[i] <= '9') || name[i] == '-'
            &&& n == 0 ==> name.len() == 12 + decimal::decimal(stamp as nat).len()
            &&& n == 0 && 8 <= i < name.len() - 4 ==> name[i] != '-'
        }),
{
    reveal_strlit("PinWall-");
    reveal_strlit("-");
    reveal_strlit(".png");
    let name = candidate(stamp, n);
    let ds = decimal::decimal(stamp as nat);
    let dn = decimal::decimal(n as nat);
    assert(name.take(8) =~= "PinWall-"@);
    assert(name.skip(name.len() - 4) =~= ".png"@);
    decimal::law_decimal_says_the_number(stamp as nat);
    if 8 <= i < 8 + ds.len() {
        decimal::law_decimal_has_only_digits(stamp as nat, i - 8);
    } else if n > 0 && 8 + ds.len() < i < name.len() - 4 {
        decimal::law_decimal_has_only_digits(n as nat, i - 8 - ds.len() - 1);
    }
}

/// There is one first free name.
pub proof fn law_the_first_free_name_is_unique(
    stamp: u64,
    names: Seq<Seq<char>>,
    m: u64,
    n: u64,
)
    requires
        is_first_free(stamp, names, m),
        is_first_free(stamp, names, n),
    ensures
        m == n,
        !names.contains(candidate(stamp, 0)) ==> n == 0,
{
    if m < n {
        assert(names.contains(candidate(stamp, m)));
    }
    if n < m {
        assert(names.contains(candidate(stamp, n)));
    }
    if n > 0 {
        assert(names.contains(candidate(stamp, 0)));
    }
}

} // verus!
