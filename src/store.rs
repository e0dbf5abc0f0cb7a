//! The in-memory entry store: a map from entry name to entry.
use vstd::prelude::*;
use crate::error::PassageError;

verus! {

/// A stored secret.
#[derive(Debug)]
pub struct Entry {
    pub password: String,
}

/// The entries of a store, each under its own name.
///
/// The names are kept unique, so the list is a map from name to entry; its
/// order carries no meaning.
#[derive(Debug)]
pub struct Storage {
    entries: Vec<(String, Entry)>,
}

/// The map that a list of named entries stands for; a later pair wins over
/// an earlier one of the same name.
pub open spec fn map_of(s: Seq<(String, Entry)>) -> Map<Seq<char>, Seq<char>>
    decreases s.len(),
{
    if s.len() == 0 {
        Map::empty()
    } else {
        map_of(s.drop_last()).insert(s.last().0@, s.last().1.password@)
    }
}

/// No two pairs of the list share a name.
pub open spec fn names_unique(s: Seq<(String, Entry)>) -> bool {
    forall|i: int, j: int| 0 <= i < j < s.len() ==> #[trigger] s[i].0@ != #[trigger] s[j].0@
}

/// With unique names, the map holds exactly the listed names, each with the
/// password listed beside it.
pub proof fn lemma_map_of(s: Seq<(String, Entry)>)
    requires
        names_unique(s),
    ensures
        forall|k: Seq<char>| #[trigger]
            map_of(s).contains_key(k) <==> exists|j: int| 0 <= j < s.len() && s[j].0@ == k,
        forall|j: int| #![trigger s[j]] 0 <= j < s.len() ==> map_of(s)[s[j].0@] == s[j].1.password@,
    decreases s.len(),
{
    if s.len() > 0 {
        let t = s.drop_last();
        assert(names_unique(t)) by {
            assert forall|i: int, j: int| 0 <= i < j < t.len() implies t[i].0@ != t[j].0@ by {
                assert(t[i] == s[i] && t[j] == s[j]);
            }
        }
        lemma_map_of(t);
        assert forall|k: Seq<char>| #[trigger]
            map_of(s).contains_key(k) <==> exists|j: int| 0 <= j < s.len() && s[j].0@ == k by {
            if map_of(s).contains_key(k) && k != s.last().0@ {
                assert(map_of(t).contains_key(k));
                let j = choose|j: int| 0 <= j < t.len() && t[j].0@ == k;
                assert(s[j] == t[j]);
            }
            if exists|j: int| 0 <= j < s.len() && s[j].0@ == k {
                let j = choose|j: int| 0 <= j < s.len() && s[j].0@ == k;
                if j < t.len() {
                    assert(s[j] == t[j]);
                    assert(map_of(t).contains_key(k));
                } else {
                    assert(k == s.last().0@);
                }
            }
        }
        assert forall|j: int| #![trigger s[j]] 0 <= j < s.len() implies map_of(s)[s[j].0@]
            == s[j].1.password@ by {
            if j < t.len() {
                assert(s[j] == t[j]);
                assert(s[j].0@ != s[s.len() - 1].0@);
            }
        }
    }
}

/// A table of a document: its name, and its fields as key and value.
pub type TableView = (Seq<char>, Seq<(Seq<char>, Seq<char>)>);

/// The name of the field of an entry's table that holds its password.
pub const PASSWORD_FIELD: &'static str = "password";

/// The value of the field `key` among `fields`; a later field wins.
pub open spec fn field_of(fields: Seq<(Seq<char>, Seq<char>)>, key: Seq<char>) -> Option<Seq<char>>
    decreases fields.len(),
{
    if fields.len() == 0 {
        None
    } else if fields.last().0 == key {
        Some(fields.last().1)
    } else {
        field_of(fields.drop_last(), key)
    }
}

/// The entry map that a list of tables describes, one entry per table with
/// the table's password field; `None` where a table has no such field. A
/// later table wins over an earlier one of the same name.
pub open spec fn map_of_tables(t: Seq<TableView>) -> Option<Map<Seq<char>, Seq<char>>>
    decreases t.len(),
{
    if t.len() == 0 {
        Some(Map::empty())
    } else {
        match map_of_tables(t.drop_last()) {
            None => None,
            Some(m) => match field_of(t.last().1, PASSWORD_FIELD@) {
                None => None,
                Some(pw) => Some(m.insert(t.last().0, pw)),
            },
        }
    }
}

/// The entries after adding `pw` under `name`, where a taken name is
/// overwritten only if `overwrite` confirms it.
pub open spec fn add_confirmed_spec(
    m: Map<Seq<char>, Seq<char>>,
    name: Seq<char>,
    pw: Seq<char>,
    overwrite: bool,
) -> Map<Seq<char>, Seq<char>> {
    if !m.contains_key(name) || overwrite {
        m.insert(name, pw)
    } else {
        m
    }
}

/// The life of an entry: once `add` has put `added` under `x`, `names` lists
/// `x`; once `edit` has set `edited` on it, `show` gives `edited`; once `remove`
/// has taken it out, `names` no longer lists `x`.
pub proof fn law_entry_lifecycle(
    m: Map<Seq<char>, Seq<char>>,
    x: Seq<char>,
    added: Seq<char>,
    edited: Seq<char>,
)
    ensures
        m.insert(x, added).contains_key(x),
        m.insert(x, added).insert(x, edited).contains_key(x),
        m.insert(x, added).insert(x, edited)[x] == edited,
        !m.insert(x, added).insert(x, edited).remove(x).contains_key(x),
{
}

/// Declining to overwrite a taken name leaves the store, and so the stored
/// password, as it was; confirming it stores the new password.
pub proof fn law_overwrite_confirmation(m: Map<Seq<char>, Seq<char>>, x: Seq<char>, p: Seq<char>)
    requires
        m.contains_key(x),
    ensures
        add_confirmed_spec(m, x, p, false) == m,
        add_confirmed_spec(m, x, p, false)[x] == m[x],
        add_confirmed_spec(m, x, p, true)[x] == p,
{
}

/// The table that stands for one entry.
pub open spec fn table_of(p: (String, Entry)) -> TableView {
    (p.0@, seq![(PASSWORD_FIELD@, p.1.password@)])
}

impl View for Storage {
    type V = Map<Seq<char>, Seq<char>>;

    /// Each entry name with its password.
    closed spec fn view(&self) -> Map<Seq<char>, Seq<char>> {
        map_of(self.entries@)
    }
}

impl Storage {
    /// The names are unique.
    pub closed spec fn wf(&self) -> bool {
        names_unique(self.entries@)
    }

    /// An empty store.
    pub fn new() -> (r: Storage)
        ensures
            r.wf(),
            r@ == Map::<Seq<char>, Seq<char>>::empty(),
    {
        Storage { entries: Vec::new() }
    }

    /// The tables that the store is written as: one per entry, named after
    /// it, with a single password field.
    pub closed spec fn tables(&self) -> Seq<TableView> {
        self.entries@.map_values(|p: (String, Entry)| table_of(p))
    }

    /// The store as tables, one per entry.
    pub fn to_tables(&self) -> (r: Vec<(String, Vec<(String, String)>)>)
        ensures
            r.deep_view() == self.tables(),
    {
        let mut r: Vec<(String, Vec<(String, String)>)> = Vec::new();
        let mut i: usize = 0;
        while i < self.entries.len()
            invariant
                i <= self.entries@.len(),
                r.deep_view() == self.entries@.take(i as int).map_values(
                    |p: (String, Entry)| table_of(p),
                ),
            decreases self.entries@.len() - i,
        {
            let name = self.entries[i].0.clone();
            let password = self.entries[i].1.password.clone();
            let fields = vec![(String::from_str(PASSWORD_FIELD), password)];
            proof {
                assert(fields.deep_view() =~= seq![(PASSWORD_FIELD@, password@)]);
            }
            let ghost before = r.deep_view();
            r.push((name, fields));
            assert(r.deep_view() =~= before.push(table_of(self.entries@[i as int])));
            assert(self.entries@.take(i + 1) =~= self.entries@.take(i as int).push(
                self.entries@[i as int],
            ));
            i = i + 1;
            assert(r.deep_view() =~= self.entries@.take(i as int).map_values(
                |p: (String, Entry)| table_of(p),
            ));
        }
        assert(self.entries@.take(i as int) =~= self.entries@);
        r
    }

    /// The store that a list of tables describes; `None` where a table lacks
    /// the password field.
    pub fn from_tables(t: Vec<(String, Vec<(String, String)>)>) -> (r: Option<Storage>)
        ensures
            match map_of_tables(t.deep_view()) {
                Some(m) => r is Some && r->Some_0.wf() && r->Some_0@ == m,
                None => r is None,
            },
    {
        let mut s = Storage::new();
        let mut i: usize = 0;
        while i < t.len()
            invariant
                i <= t@.len(),
                s.wf(),
                map_of_tables(t.deep_view().take(i as int)) == Some(s@),
            decreases t@.len() - i,
        {
            let ghost tv = t.deep_view();
            assert(tv.take(i + 1).drop_last() =~= tv.take(i as int));
            assert(tv.take(i + 1).last() == tv[i as int]);
            match password_field(&t[i].1) {
                Some(pw) => {
                    s.add(t[i].0.clone(), pw);
                },
                None => {
                    proof {
                        lemma_tables_none(tv, i as int + 1);
                    }
                    assert(tv.take(tv.len() as int) =~= tv);
                    return None;
                },
            }
            i = i + 1;
        }
        assert(t.deep_view().take(i as int) =~= t.deep_view());
        Some(s)
    }

    /// Where the entry called `name` stands in the list, if there is one.
    fn position(&self, name: &str) -> (r: Option<usize>)
        ensures
            match r {
                Some(i) => i < self.entries@.len() && self.entries@[i as int].0@ == name@,
                None => forall|j: int|
                    0 <= j < self.entries@.len() ==> #[trigger] self.entries@[j].0@ != name@,
            },
    {
        let mut i: usize = 0;
        while i < self.entries.len()
            invariant
                i <= self.entries@.len(),
                forall|j: int| 0 <= j < i ==> #[trigger] self.entries@[j].0@ != name@,
            decreases self.entries@.len() - i,
        {
            if str_eq(self.entries[i].0.as_str(), name) {
                return Some(i);
            }
            i = i + 1;
        }
        None
    }

    /// Whether an entry is called `name`.
    pub fn contains(&self, name: &str) -> (r: bool)
        requires
            self.wf(),
        ensures
            r == self@.contains_key(name@),
    {
        proof {
            lemma_map_of(self.entries@);
        }
        self.position(name).is_some()
    }

    /// The password of the entry called `name`.
    pub fn show(&self, name: &str) -> (r: Result<String, PassageError>)
        requires
            self.wf(),
        ensures
            self@.contains_key(name@) ==> r is Ok && r->Ok_0@ == self@[name@],
            !self@.contains_key(name@) ==> r is Err && r->Err_0 is EntryNotFound
                && r->Err_0->EntryNotFound_name@ == name@,
    {
        proof {
            lemma_map_of(self.entries@);
        }
        match self.position(name) {
            Some(i) => Ok(self.entries[i].1.password.clone()),
            None => Err(PassageError::EntryNotFound { name: String::from_str(name) }),
        }
    }

    /// The names of all entries, each once, in no promised order.
    pub fn names(&self) -> (r: Vec<String>)
        requires
            self.wf(),
        ensures
            r@.len() == self@.len(),
            forall|k: Seq<char>|
                self@.contains_key(k) <==> exists|j: int| 0 <= j < r@.len() && #[trigger] r@[j]@ == k,
            forall|i: int, j: int| 0 <= i < j < r@.len() ==> #[trigger] r@[i]@ != #[trigger] r@[j]@,
    {
        proof {
            lemma_map_of(self.entries@);
            lemma_len_of_unique(self.entries@);
        }
        let mut r: Vec<String> = Vec::new();
        let mut i: usize = 0;
        while i < self.entries.len()
            invariant
                i <= self.entries@.len(),
                r@.len() == i,
                forall|j: int| 0 <= j < i ==> #[trigger] r@[j]@ == self.entries@[j].0@,
            decreases self.entries@.len() - i,
        {
            r.push(self.entries[i].0.clone());
            i = i + 1;
        }
        assert forall|k: Seq<char>|
            self@.contains_key(k) implies exists|j: int| 0 <= j < r@.len() && #[trigger] r@[j]@ == k by {
            let j = choose|j: int| 0 <= j < self.entries@.len() && self.entries@[j].0@ == k;
            assert(r@[j]@ == k);
        }
        r
    }

    /// Puts `password` under `name`: a new entry, or the new password of the
    /// entry already called so.
    pub fn add(&mut self, name: String, password: String)
        requires
            old(self).wf(),
        ensures
            final(self).wf(),
            final(self)@ == old(self)@.insert(name@, password@),
    {
        proof {
            lemma_map_of(self.entries@);
        }
        match self.position(name.as_str()) {
            Some(i) => {
                let ghost before = self.entries@;
                self.entries.set(i, (name, Entry { password }));
                proof {
                    lemma_update(before, i as int, self.entries@);
                }
            },
            None => {
                let ghost before = self.entries@;
                self.entries.push((name, Entry { password }));
                assert(self.entries@.drop_last() =~= before);
                assert(names_unique(self.entries@));
            },
        }
    }

    /// Whether adding under `name` goes ahead: the name is free, or
    /// `overwrite` confirms replacing its entry.
    pub fn add_allowed(&self, name: &str, overwrite: bool) -> (r: bool)
        requires
            self.wf(),
        ensures
            r == (!self@.contains_key(name@) || overwrite),
    {
        !self.contains(name) || overwrite
    }

    /// Adds an entry under a name that may be taken: a taken name is
    /// overwritten only where `overwrite` confirms it. Returns whether the
    /// store changed.
    pub fn add_confirmed(&mut self, name: String, password: String, overwrite: bool) -> (r: bool)
        requires
            old(self).wf(),
        ensures
            final(self).wf(),
            r == (!old(self)@.contains_key(name@) || overwrite),
            final(self)@ == add_confirmed_spec(old(self)@, name@, password@, overwrite),
    {
        if self.contains(name.as_str()) && !overwrite {
            false
        } else {
            self.add(name, password);
            true
        }
    }

    /// Sets a new password on the entry called `name`.
    pub fn edit(&mut self, name: &str, password: String) -> (r: Result<(), PassageError>)
        requires
            old(self).wf(),
        ensures
            final(self).wf(),
            old(self)@.contains_key(name@) ==> r is Ok && final(self)@ == old(self)@.insert(
                name@,
                password@,
            ),
            !old(self)@.contains_key(name@) ==> r is Err && final(self)@ == old(self)@,
            r is Err ==> r->Err_0 is EntryNotFound && r->Err_0->EntryNotFound_name@ == name@,
    {
        if self.contains(name) {
            self.add(String::from_str(name), password);
            Ok(())
        } else {
            Err(PassageError::EntryNotFound { name: String::from_str(name) })
        }
    }

    /// Deletes the entry called `name`.
    pub fn remove(&mut self, name: &str) -> (r: Result<(), PassageError>)
        requires
            old(self).wf(),
        ensures
            final(self).wf(),
            old(self)@.contains_key(name@) ==> r is Ok && final(self)@ == old(self)@.remove(name@),
            !old(self)@.contains_key(name@) ==> r is Err && final(self)@ == old(self)@,
            r is Err ==> r->Err_0 is EntryNotFound && r->Err_0->EntryNotFound_name@ == name@,
    {
        proof {
            lemma_map_of(self.entries@);
        }
        match self.position(name) {
            Some(i) => {
                let ghost before = self.entries@;
                self.entries.remove(i);
                proof {
                    lemma_remove(before, i as int, self.entries@);
                }
                Ok(())
            },
            None => Err(PassageError::EntryNotFound { name: String::from_str(name) }),
        }
    }
}

/// The value of the password field among `fields`.
fn password_field(fields: &Vec<(String, String)>) -> (r: Option<String>)
    ensures
        r matches Some(v) ==> field_of(fields.deep_view(), PASSWORD_FIELD@) == Some(v@),
        r is None ==> field_of(fields.deep_view(), PASSWORD_FIELD@) is None,
{
    let mut i: usize = fields.len();
    let ghost fv = fields.deep_view();
    assert(fv.take(i as int) =~= fv);
    while i > 0
        invariant
            i <= fv.len(),
            fv == fields.deep_view(),
            field_of(fv, PASSWORD_FIELD@) == field_of(fv.take(i as int), PASSWORD_FIELD@),
        decreases i,
    {
        assert(fv.take(i as int).drop_last() =~= fv.take(i - 1));
        assert(fv.take(i as int).last() == fv[i - 1]);
        if str_eq(fields[i - 1].0.as_str(), PASSWORD_FIELD) {
            return Some(fields[i - 1].1.clone());
        }
        i = i - 1;
    }
    assert(fv.take(0) =~= Seq::<(Seq<char>, Seq<char>)>::empty());
    None
}

/// Once a prefix of the tables describes no map, no longer prefix does.
proof fn lemma_tables_none(t: Seq<TableView>, n: int)
    requires
        0 <= n <= t.len(),
        map_of_tables(t.take(n)) is None,
    ensures
        map_of_tables(t) is None,
    decreases t.len() - n,
{
    if n < t.len() {
        assert(t.take(n + 1).drop_last() =~= t.take(n));
        lemma_tables_none(t, n + 1);
    } else {
        assert(t.take(n) =~= t);
    }
}

/// Writing a store as tables and reading the tables back gives the store's
/// entries again.
pub proof fn lemma_tables_round_trip(s: &Storage)
    requires
        s.wf(),
    ensures
        map_of_tables(s.tables()) == Some(s@),
{
    lemma_tables_prefix(s.entries@, s.entries@.len() as int);
    assert(s.entries@.take(s.entries@.len() as int) =~= s.entries@);
}

proof fn lemma_tables_prefix(e: Seq<(String, Entry)>, n: int)
    requires
        0 <= n <= e.len(),
    ensures
        map_of_tables(e.take(n).map_values(|p: (String, Entry)| table_of(p))) == Some(
            map_of(e.take(n)),
        ),
    decreases n,
{
    let f = |p: (String, Entry)| table_of(p);
    if n > 0 {
        lemma_tables_prefix(e, n - 1);
        let tn = e.take(n).map_values(f);
        assert(tn.drop_last() =~= e.take(n - 1).map_values(f));
        assert(e.take(n).drop_last() =~= e.take(n - 1));
        let fields = seq![(PASSWORD_FIELD@, e[n - 1].1.password@)];
        assert(fields.drop_last() =~= Seq::<(Seq<char>, Seq<char>)>::empty());
        assert(field_of(fields, PASSWORD_FIELD@) == Some(e[n - 1].1.password@));
    } else {
        assert(e.take(0).map_values(f) =~= Seq::<TableView>::empty());
        assert(e.take(0) =~= Seq::<(String, Entry)>::empty());
    }
}

/// Equality of two strings by their characters.
fn str_eq(a: &str, b: &str) -> (r: bool)
    ensures
        r == (a@ == b@),
{
    let n = a.unicode_len();
    if n != b.unicode_len() {
        return false;
    }
    let mut i: usize = 0;
    while i < n
        invariant
            n == a@.len() == b@.len(),
            i <= n,
            a@.subrange(0, i as int) == b@.subrange(0, i as int),
        decreases n - i,
    {
        if a.get_char(i) != b.get_char(i) {
            assert(a@[i as int] != b@[i as int]);
            return false;
        }
        assert(a@.subrange(0, i + 1) =~= a@.subrange(0, i as int).push(a@[i as int]));
        assert(b@.subrange(0, i + 1) =~= b@.subrange(0, i as int).push(b@[i as int]));
        i = i + 1;
    }
    assert(a@ =~= a@.subrange(0, n as int));
    assert(b@ =~= b@.subrange(0, n as int));
    true
}

/// With unique names, the map has one key per pair.
proof fn lemma_len_of_unique(s: Seq<(String, Entry)>)
    requires
        names_unique(s),
    ensures
        map_of(s).len() == s.len(),
        map_of(s).dom().finite(),
    decreases s.len(),
{
    if s.len() > 0 {
        let t = s.drop_last();
        assert(names_unique(t)) by {
            assert forall|i: int, j: int| 0 <= i < j < t.len() implies t[i].0@ != t[j].0@ by {
                assert(t[i] == s[i] && t[j] == s[j]);
            }
        }
        lemma_len_of_unique(t);
        lemma_map_of(t);
        assert(!map_of(t).contains_key(s.last().0@)) by {
            if map_of(t).contains_key(s.last().0@) {
                let j = choose|j: int| 0 <= j < t.len() && t[j].0@ == s.last().0@;
                assert(s[j] == t[j]);
            }
        }
    }
}

/// Replacing the pair at `i` by one of the same name sets that name's
/// password.
proof fn lemma_update(s: Seq<(String, Entry)>, i: int, t: Seq<(String, Entry)>)
    requires
        names_unique(s),
        0 <= i < s.len(),
        t.len() == s.len(),
        t[i].0@ == s[i].0@,
        forall|j: int| 0 <= j < s.len() && j != i ==> t[j] == s[j],
    ensures
        names_unique(t),
        map_of(t) == map_of(s).insert(s[i].0@, t[i].1.password@),
{
    assert(names_unique(t)) by {
        assert forall|a: int, b: int| 0 <= a < b < t.len() implies t[a].0@ != t[b].0@ by {
            assert(s[a].0@ != s[b].0@);
        }
    }
    lemma_map_of(s);
    lemma_map_of(t);
    let m = map_of(s).insert(s[i].0@, t[i].1.password@);
    assert forall|k: Seq<char>| #[trigger] map_of(t).contains_key(k) <==> m.contains_key(k) by {
        if map_of(t).contains_key(k) {
            let j = choose|j: int| 0 <= j < t.len() && t[j].0@ == k;
            if j != i {
                assert(s[j] == t[j]);
            }
        }
        if map_of(s).contains_key(k) {
            let j = choose|j: int| 0 <= j < s.len() && s[j].0@ == k;
            if j != i {
                assert(s[j] == t[j]);
            }
        }
    }
    assert forall|k: Seq<char>| #[trigger] map_of(t).contains_key(k) implies map_of(t)[k] == m[k] by {
        let j = choose|j: int| 0 <= j < t.len() && t[j].0@ == k;
        if j != i {
            assert(s[j] == t[j]);
        }
    }
    assert(map_of(t) =~= m);
}

/// Taking the pair at `i` out of the list takes its name out of the map.
proof fn lemma_remove(s: Seq<(String, Entry)>, i: int, t: Seq<(String, Entry)>)
    requires
        names_unique(s),
        0 <= i < s.len(),
        t == s.remove(i),
    ensures
        names_unique(t),
        map_of(t) == map_of(s).remove(s[i].0@),
{
    assert forall|j: int| #![trigger t[j]] 0 <= j < t.len() implies t[j] == (if j < i {
        s[j]
    } else {
        s[j + 1]
    }) by {}
    assert(names_unique(t)) by {
        assert forall|a: int, b: int| 0 <= a < b < t.len() implies t[a].0@ != t[b].0@ by {
            let sa = if a < i { a } else { a + 1 };
            let sb = if b < i { b } else { b + 1 };
            assert(t[a] == s[sa] && t[b] == s[sb]);
            assert(s[sa].0@ != s[sb].0@);
        }
    }
    lemma_map_of(s);
    lemma_map_of(t);
    let m = map_of(s).remove(s[i].0@);
    assert forall|k: Seq<char>| #[trigger] map_of(t).contains_key(k) <==> m.contains_key(k) by {
        if map_of(t).contains_key(k) {
            let j = choose|j: int| 0 <= j < t.len() && t[j].0@ == k;
            let sj = if j < i { j } else { j + 1 };
            assert(t[j] == s[sj]);
            assert(s[sj].0@ != s[i].0@);
        }
        if m.contains_key(k) {
            let j = choose|j: int| 0 <= j < s.len() && s[j].0@ == k;
            assert(j != i);
            let tj = if j < i { j } else { j - 1 };
            assert(t[tj] == s[j]);
        }
    }
    assert forall|k: Seq<char>| #[trigger] map_of(t).contains_key(k) implies map_of(t)[k] == m[k] by {
        let j = choose|j: int| 0 <= j < t.len() && t[j].0@ == k;
        let sj = if j < i { j } else { j + 1 };
        assert(t[j] == s[sj]);
    }
    assert(map_of(t) =~= m);
}

} // verus!
