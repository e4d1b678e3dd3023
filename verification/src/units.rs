//! Discovering monitored units and deriving their container ids.
//!
//! A unit is a subdirectory of the resource-group namespace root whose name
//! begins with the managing prefix. Its externally meaningful container id is
//! the directory name with that prefix and the scope suffix stripped.

use vstd::prelude::*;

verus! {

/// The directory-name prefix that marks a container-managed unit.
pub open spec fn monitored_prefix() -> Seq<char> {
    seq!['d', 'o', 'c', 'k', 'e', 'r', '-']
}

/// The directory-name suffix stripped when deriving the container id.
pub open spec fn scope_suffix() -> Seq<char> {
    seq!['.', 's', 'c', 'o', 'p', 'e']
}

/// Whether a directory name marks a monitored unit: it begins with the
/// managing prefix.
pub open spec fn is_monitored_name_spec(name: Seq<char>) -> bool {
    name.len() >= 7 && name.take(7) == monitored_prefix()
}

/// Whether `name` begins with the managing prefix.
pub fn is_monitored_name(name: &str) -> (r: bool)
    ensures
        r == is_monitored_name_spec(name@),
{
    let n = name.unicode_len();
    if n < 7 {
        return false;
    }
    let r = name.get_char(0) == 'd' && name.get_char(1) == 'o' && name.get_char(2) == 'c'
        && name.get_char(3) == 'k' && name.get_char(4) == 'e' && name.get_char(5) == 'r'
        && name.get_char(6) == '-';
    proof {
        if r {
            assert(name@.take(7) =~= monitored_prefix());
        } else {
            if name@.take(7) == monitored_prefix() {
                assert(name@[0] == name@.take(7)[0]);
                assert(name@[1] == name@.take(7)[1]);
                assert(name@[2] == name@.take(7)[2]);
                assert(name@[3] == name@.take(7)[3]);
                assert(name@[4] == name@.take(7)[4]);
                assert(name@[5] == name@.take(7)[5]);
                assert(name@[6] == name@.take(7)[6]);
                assert(false);
            }
        }
    }
    r
}

/// The name with the managing prefix stripped, when it carries one.
pub open spec fn strip_monitored_prefix(name: Seq<char>) -> Seq<char> {
    if is_monitored_name_spec(name) {
        name.skip(7)
    } else {
        name
    }
}

/// Whether a name ends with the scope suffix.
pub open spec fn has_scope_suffix(s: Seq<char>) -> bool {
    s.len() >= 6 && s.skip(s.len() - 6) == scope_suffix()
}

/// The name with the scope suffix stripped, when it carries one.
pub open spec fn strip_scope_suffix(s: Seq<char>) -> Seq<char> {
    if has_scope_suffix(s) {
        s.take(s.len() - 6)
    } else {
        s
    }
}

/// The container id a unit name maps to: the managing prefix and the scope
/// suffix both stripped when present.
pub open spec fn unit_id_spec(name: Seq<char>) -> Seq<char> {
    strip_scope_suffix(strip_monitored_prefix(name))
}

/// Derive the container id from a unit's directory name.
pub fn unit_id_of(name: &str) -> (r: String)
    ensures
        r@ == unit_id_spec(name@),
{
    let n = name.unicode_len();
    let start: usize = if is_monitored_name(name) {
        7
    } else {
        0
    };
    let ghost s1 = strip_monitored_prefix(name@);
    proof {
        assert(s1 =~= name@.skip(start as int));
    }
    let has_suffix = n - start >= 6 && name.get_char(n - 6) == '.' && name.get_char(n - 5) == 's'
        && name.get_char(n - 4) == 'c' && name.get_char(n - 3) == 'o' && name.get_char(n - 2)
        == 'p' && name.get_char(n - 1) == 'e';
    proof {
        if has_suffix {
            assert(s1.len() >= 6);
            assert forall|t: int| 0 <= t < 6 implies s1.skip(s1.len() - 6)[t] == scope_suffix()[t] by {
                assert(s1.skip(s1.len() - 6)[t] == name@[n - 6 + t]);
            }
            assert(s1.skip(s1.len() - 6) =~= scope_suffix());
            assert(has_scope_suffix(s1));
        } else {
            if has_scope_suffix(s1) {
                assert(s1.len() >= 6);
                assert(n - start >= 6);
                assert(s1.skip(s1.len() - 6)[0] == name@[n as int - 6]);
                assert(s1.skip(s1.len() - 6)[1] == name@[n as int - 5]);
                assert(s1.skip(s1.len() - 6)[2] == name@[n as int - 4]);
                assert(s1.skip(s1.len() - 6)[3] == name@[n as int - 3]);
                assert(s1.skip(s1.len() - 6)[4] == name@[n as int - 2]);
                assert(s1.skip(s1.len() - 6)[5] == name@[n as int - 1]);
                assert(false);
            }
        }
    }
    let end: usize = if has_suffix {
        n - 6
    } else {
        n
    };
    let sub = name.substring_char(start, end);
    proof {
        if has_suffix {
            assert(sub@ =~= s1.take(s1.len() - 6));
        } else {
            assert(sub@ =~= s1);
        }
    }
    sub.to_owned()
}

/// One directory entry of the resource-group namespace root, as handed in by
/// the caller: its name and whether it is a directory.
pub struct UnitEntry {
    pub name: String,
    pub is_dir: bool,
}

/// Whether enumeration keeps an entry: only directories whose name carries
/// the managing prefix; everything else is silently skipped.
pub open spec fn entry_kept(e: UnitEntry) -> bool {
    e.is_dir && is_monitored_name_spec(e.name@)
}

/// The names of the entries kept, in input order.
pub open spec fn monitored_names(s: Seq<UnitEntry>) -> Seq<Seq<char>>
    decreases s.len(),
{
    if s.len() == 0 {
        Seq::empty()
    } else {
        let rest = monitored_names(s.drop_last());
        if entry_kept(s.last()) {
            rest.push(s.last().name@)
        } else {
            rest
        }
    }
}

/// Enumerate the monitored units among the given directory entries: the
/// names of the directories that carry the managing prefix, in input order.
/// Entries that are not directories or do not match are skipped, never an
/// error.
pub fn filter_unit_names(entries: &Vec<UnitEntry>) -> (r: Vec<String>)
    ensures
        r.deep_view() == monitored_names(entries@),
{
    let mut out: Vec<String> = Vec::new();
    let mut i: usize = 0;
    proof {
        assert(entries@.take(0) =~= Seq::<UnitEntry>::empty());
        assert(out.deep_view() =~= monitored_names(entries@.take(0)));
    }
    while i < entries.len()
        invariant
            i <= entries.len(),
            out.deep_view() == monitored_names(entries@.take(i as int)),
        decreases entries.len() - i,
    {
        let ghost prev = out.deep_view();
        proof {
            assert(entries@.take(i + 1).drop_last() =~= entries@.take(i as int));
            assert(entries@.take(i + 1).last() == entries@[i as int]);
        }
        let e = &entries[i];
        if e.is_dir && is_monitored_name(&e.name) {
            out.push(e.name.clone());
            proof {
                assert(entry_kept(entries@[i as int]));
                assert(out.deep_view() =~= prev.push(entries@[i as int].name@));
            }
        } else {
            proof {
                assert(!entry_kept(entries@[i as int]));
            }
        }
        i = i + 1;
    }
    proof {
        assert(entries@.take(entries@.len() as int) =~= entries@);
    }
    out
}

} // verus!
