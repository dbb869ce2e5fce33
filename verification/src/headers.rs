//! Header fields of an HTTP request or response: a map from names to values
//! that keeps the order in which names first arrived.

use crate::text::split_once;
use crate::text::split_once_spec;
use crate::text::law_split_once;
use crate::text::matches_at;
use vstd::prelude::*;
use vstd::string::*;

verus! {

/// The value of the last entry named `k`, if any.
pub open spec fn lookup(entries: Seq<(Seq<char>, Seq<char>)>, k: Seq<char>) -> Option<Seq<char>>
    decreases entries.len(),
{
    if entries.len() == 0 {
        None
    } else if entries.last().0 == k {
        Some(entries.last().1)
    } else {
        lookup(entries.drop_last(), k)
    }
}

/// The map that a list of entries describes.
pub open spec fn entries_map(entries: Seq<(Seq<char>, Seq<char>)>) -> Map<Seq<char>, Seq<char>> {
    Map::new(|k: Seq<char>| lookup(entries, k) is Some, |k: Seq<char>| lookup(entries, k).unwrap())
}

/// No two entries share a name.
pub open spec fn distinct_names(entries: Seq<(Seq<char>, Seq<char>)>) -> bool {
    forall|i: int, j: int| 0 <= i < j < entries.len() ==> entries[i].0 != entries[j].0
}

proof fn lemma_lookup_absent(entries: Seq<(Seq<char>, Seq<char>)>, k: Seq<char>)
    requires
        forall|i: int| 0 <= i < entries.len() ==> entries[i].0 != k,
    ensures
        lookup(entries, k) is None,
    decreases entries.len(),
{
    if entries.len() > 0 {
        lemma_lookup_absent(entries.drop_last(), k);
    }
}

proof fn lemma_lookup_found(entries: Seq<(Seq<char>, Seq<char>)>, i: int)
    requires
        distinct_names(entries),
        0 <= i < entries.len(),
    ensures
        lookup(entries, entries[i].0) == Some(entries[i].1),
    decreases entries.len(),
{
    if i < entries.len() - 1 {
        lemma_lookup_found(entries.drop_last(), i);
    }
}

proof fn lemma_lookup_update(entries: Seq<(Seq<char>, Seq<char>)>, i: int, v: Seq<char>, k2: Seq<char>)
    requires
        distinct_names(entries),
        0 <= i < entries.len(),
    ensures
        lookup(entries.update(i, (entries[i].0, v)), k2) == if k2 == entries[i].0 {
            Some(v)
        } else {
            lookup(entries, k2)
        },
    decreases entries.len(),
{
    let k = entries[i].0;
    let updated = entries.update(i, (k, v));
    if i == entries.len() - 1 {
        assert(updated.drop_last() =~= entries.drop_last());
    } else {
        assert(updated.drop_last() =~= entries.drop_last().update(i, (k, v)));
        lemma_lookup_update(entries.drop_last(), i, v, k2);
    }
}

/// Header fields: names mapped to values, each name at most once, kept in
/// the order in which names were first inserted.
pub struct Headers {
    entries: Vec<(String, String)>,
}

impl Headers {
    /// The entries, as pairs of name and value, in order.
    pub closed spec fn pairs(&self) -> Seq<(Seq<char>, Seq<char>)> {
        self.entries@.map_values(|e: (String, String)| (e.0@, e.1@))
    }

    /// No two entries share a name; every `Headers` value keeps to this.
    #[verifier::type_invariant]
    pub open spec fn names_are_distinct(self) -> bool {
        distinct_names(self.pairs())
    }

    /// An empty set of header fields.
    pub fn new() -> (res: Headers)
        ensures
            res.pairs() == Seq::<(Seq<char>, Seq<char>)>::empty(),
            distinct_names(res.pairs()),
            res@ == Map::<Seq<char>, Seq<char>>::empty(),
    {
        let res = Headers { entries: Vec::new() };
        assert(res.pairs() =~= Seq::<(Seq<char>, Seq<char>)>::empty());
        assert(res@ =~= Map::<Seq<char>, Seq<char>>::empty());
        res
    }

    /// The number of entries.
    pub fn len(&self) -> (res: usize)
        ensures
            res == self.pairs().len(),
    {
        self.entries.len()
    }

    /// The name and value of the entry at index `i`.
    pub fn entry(&self, i: usize) -> (res: (&String, &String))
        requires
            i < self.pairs().len(),
        ensures
            res.0@ == self.pairs()[i as int].0,
            res.1@ == self.pairs()[i as int].1,
    {
        let e = &self.entries[i];
        (&e.0, &e.1)
    }

    /// The index of the entry named `name`, if there is one.
    fn position(&self, name: &String) -> (res: Option<usize>)
        ensures
            match res {
                Some(i) => i < self.pairs().len() && self.pairs()[i as int].0 == name@,
                None => forall|j: int| 0 <= j < self.pairs().len() ==> self.pairs()[j].0 != name@,
            },
    {
        let n = self.entries.len();
        let mut i: usize = 0;
        while i < n
            invariant
                n == self.entries@.len(),
                n == self.pairs().len(),
                i <= n,
                forall|j: int| 0 <= j < i ==> self.pairs()[j].0 != name@,
            decreases n - i,
        {
            if self.entries[i].0 == *name {
                return Some(i);
            }
            i = i + 1;
        }
        None
    }

    /// Sets the value of `name` to `value`, as `HashMap::insert` does. A name
    /// already present keeps its place; a new one goes last.
    pub fn insert(&mut self, name: String, value: String)
        ensures
            final(self)@ == old(self)@.insert(name@, value@),
            distinct_names(final(self).pairs()),
            old(self)@.contains_key(name@) ==> exists|i: int|
                0 <= i < old(self).pairs().len() && old(self).pairs()[i].0 == name@ 
                    && final(self).pairs() == old(self).pairs().update(i, (name@, value@)),
            !old(self)@.contains_key(name@) ==> final(self).pairs() == old(self).pairs().push(
                (name@, value@),
            ),
    {
        proof {
            use_type_invariant(&*self);
        }
        let ghost old_pairs = self.pairs();
        match self.position(&name) {
            Some(i) => {
                proof {
                    lemma_lookup_found(old_pairs, i as int);
                }
                let mut entries = Vec::new();
                std::mem::swap(&mut entries, &mut self.entries);
                let ghost name_v = name@;
                let ghost value_v = value@;
                entries.set(i, (name, value));
                proof {
                    let new_pairs = entries@.map_values(|e: (String, String)| (e.0@, e.1@));
                    assert(new_pairs =~= old_pairs.update(i as int, (old_pairs[i as int].0, value_v)));
                    assert(distinct_names(new_pairs));
                }
                self.entries = entries;
                proof {
                    assert(self.pairs() =~= old_pairs.update(i as int, (old_pairs[i as int].0, value_v)));
                    assert forall|k: Seq<char>| true implies #[trigger] lookup(self.pairs(), k) == if k
                        == name_v {
                        Some(value_v)
                    } else {
                        lookup(old_pairs, k)
                    } by {
                        lemma_lookup_update(old_pairs, i as int, value_v, k);
                    }
                    assert(self@ =~= entries_map(old_pairs).insert(name_v, value_v));
                    assert(old_pairs[i as int].0 == name_v);
                    assert(self.pairs() == old_pairs.update(i as int, (name_v, value_v)));
                }
            },
            None => {
                proof {
                    lemma_lookup_absent(old_pairs, name@);
                }
                let ghost name_v = name@;
                let ghost value_v = value@;
                let mut entries = Vec::new();
                std::mem::swap(&mut entries, &mut self.entries);
                entries.push((name, value));
                proof {
                    let new_pairs = entries@.map_values(|e: (String, String)| (e.0@, e.1@));
                    assert(new_pairs =~= old_pairs.push((name_v, value_v)));
                    assert(distinct_names(new_pairs));
                }
                self.entries = entries;
                proof {
                    assert(self.pairs() =~= old_pairs.push((name_v, value_v)));
                    assert(self.pairs().drop_last() =~= old_pairs);
                    assert(self@ =~= entries_map(old_pairs).insert(name_v, value_v));
                }
            },
        }
    }

    /// The value of `name`, if it is present.
    pub fn get(&self, name: &str) -> (res: Option<&String>)
        ensures
            match res {
                Some(v) => self@.contains_key(name@) && v@ == self@[name@],
                None => !self@.contains_key(name@),
            },
    {
        proof {
            use_type_invariant(self);
        }
        let key = String::from_str(name);
        match self.position(&key) {
            Some(i) => {
                proof {
                    lemma_lookup_found(self.pairs(), i as int);
                }
                Some(&self.entries[i].1)
            },
            None => {
                proof {
                    lemma_lookup_absent(self.pairs(), name@);
                }
                None
            },
        }
    }
}

impl View for Headers {
    type V = Map<Seq<char>, Seq<char>>;

    open spec fn view(&self) -> Map<Seq<char>, Seq<char>> {
        entries_map(self.pairs())
    }
}

/// A request header line split at its first `": "` into name and value.
pub open spec fn header_line_spec(line: Seq<char>) -> Option<(Seq<char>, Seq<char>)> {
    split_once_spec(line, ": "@)
}

/// The header map that a request's header lines give, each line inserted in
/// turn; `None` when some line has no `": "`.
pub open spec fn header_map(lines: Seq<Seq<char>>) -> Option<Map<Seq<char>, Seq<char>>>
    decreases lines.len(),
{
    if lines.len() == 0 {
        Some(Map::empty())
    } else {
        match (header_map(lines.drop_last()), header_line_spec(lines.last())) {
            (Some(m), Some((k, v))) => Some(m.insert(k, v)),
            _ => None,
        }
    }
}

/// Whether `line` is a header line: it holds a `": "`.
pub fn is_header_line(line: &str) -> (res: bool)
    ensures
        res == header_line_spec(line@) is Some,
{
    split_once(line, ": ").is_some()
}

/// Splits a header line at its first `": "` into name and value.
pub fn parse_header_line(line: &str) -> (res: (String, String))
    requires
        header_line_spec(line@) is Some,
    ensures
        header_line_spec(line@) == Some((res.0@, res.1@)),
{
    match split_once(line, ": ") {
        Some(parts) => parts,
        None => (String::new(), String::new()),
    }
}

/// Whether every one of `lines` is a header line.
pub open spec fn all_header_lines(lines: Seq<Seq<char>>) -> bool {
    forall|i: int| 0 <= i < lines.len() ==> (#[trigger] header_line_spec(lines[i])) is Some
}

/// The header fields of a request, from its header lines (those between
/// the request line and the empty line), later lines overriding earlier
/// ones with the same name.
pub fn parse_headers(lines: &Vec<String>) -> (res: Headers)
    requires
        all_header_lines(lines@.map_values(|l: String| l@)),
    ensures
        header_map(lines@.map_values(|l: String| l@)) == Some(res@),
        distinct_names(res.pairs()),
{
    let ghost views = lines@.map_values(|l: String| l@);
    let mut headers = Headers::new();
    let n = lines.len();
    let mut i: usize = 0;
    while i < n
        invariant
            n == lines@.len(),
            views == lines@.map_values(|l: String| l@),
            all_header_lines(views),
            i <= n,
            header_map(views.take(i as int)) == Some(headers@),
            distinct_names(headers.pairs()),
        decreases n - i,
    {
        assert(views.take(i + 1).drop_last() =~= views.take(i as int));
        assert(header_line_spec(views[i as int]) is Some);
        let (name, value) = parse_header_line(lines[i].as_str());
        headers.insert(name, value);
        i = i + 1;
    }
    assert(views.take(n as int) =~= views);
    headers
}

/// Whether a request asks to switch to the WebSocket protocol: its
/// `Upgrade` header is exactly `websocket`.
pub fn is_websocket_upgrade(headers: &Headers) -> (res: bool)
    ensures
        res == (headers@.contains_key("Upgrade"@) && headers@["Upgrade"@] == "websocket"@),
{
    match headers.get("Upgrade") {
        Some(value) => *value == String::from_str("websocket"),
        None => false,
    }
}

/// Entries with distinct names list every field of their map exactly once:
/// a name has a field exactly when some entry bears it, and then the field's
/// value is that entry's, and no other entry bears the name.
pub proof fn law_pairs_list_each_field_once(pairs: Seq<(Seq<char>, Seq<char>)>, name: Seq<char>)
    requires
        distinct_names(pairs),
    ensures
        entries_map(pairs).contains_key(name) <==> exists|i: int|
            0 <= i < pairs.len() && #[trigger] pairs[i].0 == name,
        forall|i: int|
            0 <= i < pairs.len() && #[trigger] pairs[i].0 == name ==> entries_map(pairs)[name]
                == pairs[i].1 && forall|j: int| 0 <= j < pairs.len() && j != i ==> pairs[j].0 != name,
{
    if exists|i: int| 0 <= i < pairs.len() && #[trigger] pairs[i].0 == name {
        let i = choose|i: int| 0 <= i < pairs.len() && #[trigger] pairs[i].0 == name;
        lemma_lookup_found(pairs, i);
    } else {
        lemma_lookup_absent(pairs, name);
    }
    assert forall|i: int| 0 <= i < pairs.len() && #[trigger] pairs[i].0 == name implies entries_map(
        pairs,
    )[name] == pairs[i].1 && forall|j: int| 0 <= j < pairs.len() && j != i ==> pairs[j].0 != name by {
        lemma_lookup_found(pairs, i);
        assert forall|j: int| 0 <= j < pairs.len() && j != i implies pairs[j].0 != name by {
            if j < i {
                assert(pairs[j].0 != pairs[i].0);
            } else {
                assert(pairs[i].0 != pairs[j].0);
            }
        }
    }
}

/// A parsed header line loses nothing: name, `": "` and value make up the
/// line again, and the name holds no `": "`, so the value is all that follows
/// the first one. A line with no `": "` does not parse.
pub proof fn law_header_line_is_name_and_value(line: Seq<char>)
    ensures
        match header_line_spec(line) {
            Some((name, value)) => name + ": "@ + value == line && forall|j: int|
                0 <= j < name.len() ==> !matches_at(line, ": "@, j),
            None => forall|j: int| 0 <= j ==> !matches_at(line, ": "@, j),
        },
{
    law_split_once(line, ": "@);
}

} // verus!
