//! The connection registry: a store mapping opaque connection
//! identifiers to live engine handles. One `Directory` is one partition;
//! an identifier from one partition is never looked up in another.

use vstd::prelude::*;
use crate::text::str_eq;
use crate::models::DbError;

verus! {

/// Whether `c` is a lower-case hexadecimal digit.
pub open spec fn is_lower_hex(c: char) -> bool {
    (48 <= c as u32 && c as u32 <= 57) || (97 <= c as u32 && c as u32 <= 102)
}

/// The shape of a rendered connection identifier: 36 characters, with
/// hyphens exactly at the four fixed positions and lower-case
/// hexadecimal digits everywhere else.
pub open spec fn is_identifier_text(s: Seq<char>) -> bool {
    &&& s.len() == 36
    &&& forall|i: int|
        0 <= i < 36 ==> if i == 8 || i == 13 || i == 18 || i == 23 {
            s[i] == '-'
        } else {
            is_lower_hex(#[trigger] s[i])
        }
}

/// Relies on `uuid::Uuid::new_v4` and the hyphenated `Display` rendering
/// of `uuid::Uuid`: a freshly generated random identifier, rendered as
/// 36 characters — lower-case hexadecimal digits with hyphens at the
/// four fixed positions. Nothing is assumed about which identifier
/// comes back.
#[verifier::external_body]
pub fn generate_connection_id() -> (r: String)
    ensures
        is_identifier_text(r@),
{
    uuid::Uuid::new_v4().to_string()
}

/// The mapping described by an entry list: later entries win, though the
/// registry keeps its keys unique.
pub open spec fn map_of<H>(s: Seq<(String, H)>) -> Map<Seq<char>, H>
    decreases s.len(),
{
    if s.len() == 0 {
        Map::empty()
    } else {
        map_of(s.drop_last()).insert(s.last().0@, s.last().1)
    }
}

/// No two entries carry the same identifier.
pub open spec fn keys_unique<H>(s: Seq<(String, H)>) -> bool {
    forall|i: int, j: int|
        0 <= i < j < s.len() ==> (#[trigger] s[i]).0@ != (#[trigger] s[j]).0@
}

proof fn lemma_map_of_contains<H>(s: Seq<(String, H)>, k: Seq<char>)
    ensures
        map_of(s).contains_key(k) <==> exists|i: int|
            0 <= i < s.len() && (#[trigger] s[i]).0@ == k,
    decreases s.len(),
{
    if s.len() > 0 {
        lemma_map_of_contains(s.drop_last(), k);
        if map_of(s).contains_key(k) {
            if s.last().0@ == k {
                assert((s[s.len() - 1]).0@ == k);
            } else {
                let i = choose|i: int|
                    0 <= i < s.drop_last().len() && (#[trigger] s.drop_last()[i]).0@ == k;
                assert((s[i]).0@ == k);
            }
        }
        if exists|i: int| 0 <= i < s.len() && (#[trigger] s[i]).0@ == k {
            let i = choose|i: int| 0 <= i < s.len() && (#[trigger] s[i]).0@ == k;
            if i < s.len() - 1 {
                assert((s.drop_last()[i]).0@ == k);
            }
        }
    }
}

proof fn lemma_map_of_at<H>(s: Seq<(String, H)>, i: int)
    requires
        keys_unique(s),
        0 <= i < s.len(),
    ensures
        map_of(s).contains_key(s[i].0@),
        map_of(s)[s[i].0@] == s[i].1,
    decreases s.len(),
{
    if i < s.len() - 1 {
        assert(keys_unique(s.drop_last()));
        lemma_map_of_at(s.drop_last(), i);
        assert(s[i].0@ != s.last().0@);
    }
}

proof fn lemma_map_of_remove<H>(s: Seq<(String, H)>, i: int)
    requires
        keys_unique(s),
        0 <= i < s.len(),
    ensures
        keys_unique(s.remove(i)),
        map_of(s.remove(i)) =~= map_of(s).remove(s[i].0@),
    decreases s.len(),
{
    let k = s[i].0@;
    assert(keys_unique(s.drop_last()));
    if i == s.len() - 1 {
        assert(s.remove(i) =~= s.drop_last());
        lemma_map_of_contains(s.drop_last(), k);
        assert(forall|j: int|
            0 <= j < s.drop_last().len() ==> (#[trigger] s.drop_last()[j]).0@ != k);
        assert(!map_of(s.drop_last()).contains_key(k));
        assert(map_of(s.drop_last()).insert(k, s[i].1).remove(k) =~= map_of(s.drop_last()));
    } else {
        let t = s.remove(i);
        assert(t.drop_last() =~= s.drop_last().remove(i));
        assert(t.last() == s.last());
        lemma_map_of_remove(s.drop_last(), i);
        assert(s.last().0@ != k);
        assert(map_of(t) =~= map_of(s.drop_last()).remove(k).insert(s.last().0@, s.last().1));
        assert(map_of(s).remove(k) =~= map_of(s.drop_last()).insert(
            s.last().0@,
            s.last().1,
        ).remove(k));
        assert(map_of(s.drop_last()).remove(k).insert(s.last().0@, s.last().1)
            =~= map_of(s.drop_last()).insert(s.last().0@, s.last().1).remove(k));
    }
}

fn find_index<H>(entries: &Vec<(String, H)>, id: &str) -> (r: Option<usize>)
    ensures
        match r {
            Some(i) => i < entries@.len() && entries@[i as int].0@ == id@,
            None => forall|i: int|
                0 <= i < entries@.len() ==> (#[trigger] entries@[i]).0@ != id@,
        },
{
    let n = entries.len();
    let mut i: usize = 0;
    while i < n
        invariant
            i <= n,
            n == entries@.len(),
            forall|j: int| 0 <= j < i ==> (#[trigger] entries@[j]).0@ != id@,
        decreases n - i,
    {
        if str_eq(entries[i].0.as_str(), id) {
            return Some(i);
        }
        i += 1;
    }
    None
}

/// One partition of the connection registry: a map from connection
/// identifier to an engine handle, with each identifier held at most
/// once.
pub struct Directory<H> {
    entries: Vec<(String, H)>,
}

impl<H> Directory<H> {
    #[verifier::type_invariant]
    spec fn inv(self) -> bool {
        keys_unique(self.entries@)
    }

    /// The mapping from identifier to handle that this partition holds.
    pub closed spec fn view(&self) -> Map<Seq<char>, H> {
        map_of(self.entries@)
    }

    /// An empty partition.
    pub fn new() -> (r: Self)
        ensures
            r@ == Map::<Seq<char>, H>::empty(),
    {
        Directory { entries: Vec::new() }
    }

    /// The number of live connections in this partition.
    pub fn len(&self) -> (r: usize)
        ensures
            r == self@.dom().len(),
    {
        proof {
            use_type_invariant(&*self);
            lemma_map_of_len(self.entries@);
        }
        self.entries.len()
    }

    /// Looks a handle up; read access only.
    pub fn get<'a>(&'a self, id: &str) -> (r: Option<&'a H>)
        ensures
            match r {
                Some(h) => self@.contains_key(id@) && *h == self@[id@],
                None => !self@.contains_key(id@),
            },
    {
        proof {
            use_type_invariant(&*self);
        }
        match find_index(&self.entries, id) {
            Some(i) => {
                proof {
                    lemma_map_of_at(self.entries@, i as int);
                }
                Some(&self.entries[i].1)
            },
            None => {
                proof {
                    lemma_map_of_contains(self.entries@, id@);
                }
                None
            },
        }
    }

    /// Stores `h` under `id`, replacing any handle already there.
    pub fn insert(&mut self, id: String, h: H)
        ensures
            final (self)@ == old(self)@.insert(id@, h),
    {
        proof {
            use_type_invariant(&*self);
        }
        let ghost s0 = self.entries@;
        let mut entries: Vec<(String, H)> = Vec::new();
        std::mem::swap(&mut entries, &mut self.entries);
        match find_index(&entries, id.as_str()) {
            Some(i) => {
                entries.remove(i);
                proof {
                    lemma_map_of_remove(s0, i as int);
                    lemma_push(entries@, id, h);
                    assert(map_of(s0).remove(id@).insert(id@, h) =~= map_of(s0).insert(id@, h));
                }
            },
            None => {
                proof {
                    lemma_push(entries@, id, h);
                }
            },
        }
        entries.push((id, h));
        self.entries = entries;
    }

    /// Removes the handle under `id`; reports whether one was there.
    pub fn remove(&mut self, id: &str) -> (r: bool)
        ensures
            final (self)@ == old(self)@.remove(id@),
            r == old(self)@.contains_key(id@),
    {
        proof {
            use_type_invariant(&*self);
        }
        let ghost s0 = self.entries@;
        let mut entries: Vec<(String, H)> = Vec::new();
        std::mem::swap(&mut entries, &mut self.entries);
        let r = match find_index(&entries, id) {
            Some(i) => {
                proof {
                    lemma_map_of_at(s0, i as int);
                    lemma_map_of_remove(s0, i as int);
                }
                entries.remove(i);
                true
            },
            None => {
                proof {
                    lemma_map_of_contains(s0, id@);
                    assert(map_of(s0).remove(id@) =~= map_of(s0));
                }
                false
            },
        };
        self.entries = entries;
        r
    }

    /// Looks a handle up, producing the registry's standard error when
    /// the identifier is not registered in this partition.
    pub fn get_or_not_found<'a>(&'a self, id: &str) -> (r: Result<&'a H, DbError>)
        ensures
            match r {
                Ok(h) => self@.contains_key(id@) && *h == self@[id@],
                Err(e) => {
                    &&& !self@.contains_key(id@)
                    &&& e matches DbError::ConnectionNotFound(_)
                    &&& e.message_view() == not_found_message(id@)
                },
            },
    {
        match self.get(id) {
            Some(h) => Ok(h),
            None => Err(DbError::ConnectionNotFound(not_found_text(id))),
        }
    }

    /// Mints a fresh identifier, stores `h` under it, and returns it.
    pub fn register(&mut self, h: H) -> (id: String)
        ensures
            final (self)@ == old(self)@.insert(id@, h),
            is_identifier_text(id@),
    {
        let id = generate_connection_id();
        let stored = id.clone();
        self.insert(stored, h);
        id
    }
}

/// The message carried by a `ConnectionNotFound` error for `id`.
pub open spec fn not_found_message(id: Seq<char>) -> Seq<char> {
    "Connection with ID "@ + id + " not found"@
}

/// Builds the `ConnectionNotFound` message for `id`.
pub fn not_found_text(id: &str) -> (r: String)
    ensures
        r@ == not_found_message(id@),
{
    let r = "Connection with ID ".to_owned().concat(id);
    r.concat(" not found")
}

proof fn lemma_push<H>(s: Seq<(String, H)>, id: String, h: H)
    requires
        forall|i: int| 0 <= i < s.len() ==> (#[trigger] s[i]).0@ != id@,
        keys_unique(s),
    ensures
        keys_unique(s.push((id, h))),
        map_of(s.push((id, h))) =~= map_of(s).insert(id@, h),
{
    assert(s.push((id, h)).drop_last() =~= s);
    assert(s.push((id, h)).last() == (id, h));
}

proof fn lemma_map_of_len<H>(s: Seq<(String, H)>)
    requires
        keys_unique(s),
    ensures
        map_of(s).dom().len() == s.len(),
        map_of(s).dom().finite(),
    decreases s.len(),
{
    if s.len() > 0 {
        assert(keys_unique(s.drop_last()));
        lemma_map_of_len(s.drop_last());
        lemma_map_of_contains(s.drop_last(), s.last().0@);
        assert(forall|j: int|
            0 <= j < s.drop_last().len() ==> (#[trigger] s.drop_last()[j]).0@ != s.last().0@);
        assert(!map_of(s.drop_last()).contains_key(s.last().0@));
        assert(map_of(s).dom() =~= map_of(s.drop_last()).dom().insert(s.last().0@));
    }
}

} // verus!
