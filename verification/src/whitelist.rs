//! The set of archive names that may be fetched and unpacked from the
//! application store.

use vstd::prelude::*;
use crate::filter::{NameFilter, should_filter, filtered_out};
use crate::text::{joined, ends_with, str_ends_with};
use crate::xml::{parse_xml_whitelist, whitelist_scan, xml_tokens_of, outcome_of, ScanOutcome, WhitelistError};

verus! {

/// A set of archive names.
pub struct Whitelist {
    names: Vec<String>,
}

impl View for Whitelist {
    type V = Set<Seq<char>>;

    closed spec fn view(&self) -> Set<Seq<char>> {
        Set::new(|t: Seq<char>| exists|i: int| 0 <= i < self.names@.len() && (#[trigger] self.names@[i])@ == t)
    }
}

impl Whitelist {
    #[verifier::type_invariant]
    closed spec fn inv(&self) -> bool {
        forall|i: int, j: int|
            0 <= i < j < self.names@.len() ==> (#[trigger] self.names@[i])@ != (#[trigger] self.names@[j])@
    }

    /// The empty set.
    pub fn new() -> (w: Whitelist)
        ensures
            w@ == Set::<Seq<char>>::empty(),
    {
        let w = Whitelist { names: Vec::new() };
        assert(w@ =~= Set::<Seq<char>>::empty());
        w
    }

    /// Whether `name` is in the set.
    pub fn contains(&self, name: &str) -> (r: bool)
        ensures
            r == self@.contains(name@),
    {
        let mut i: usize = 0;
        while i < self.names.len()
            invariant
                i <= self.names@.len(),
                forall|j: int| 0 <= j < i ==> (#[trigger] self.names@[j])@ != name@,
            decreases self.names.len() - i,
        {
            if crate::text::copy_str(self.names[i].as_str()) == crate::text::copy_str(name) {
                assert(self.names@[i as int]@ == name@);
                return true;
            }
            i += 1;
        }
        false
    }

    /// Adds `name` to the set.
    pub fn insert(&mut self, name: String)
        ensures
            final(self)@ == old(self)@.insert(name@),
    {
        proof {
            use_type_invariant(&*self);
        }
        if !self.contains(name.as_str()) {
            let ghost before = self.names@;
            let mut names: Vec<String> = Vec::new();
            std::mem::swap(&mut names, &mut self.names);
            names.push(name);
            self.names = names;
            proof {
                assert(self.names@ == before.push(name));
                assert forall|t: Seq<char>| #[trigger] self@.contains(t) == old(self)@.insert(name@).contains(t) by {
                    if old(self)@.contains(t) {
                        let i = choose|i: int| 0 <= i < before.len() && (#[trigger] before[i])@ == t;
                        assert(self.names@[i] == before[i]);
                    }
                    if self@.contains(t) {
                        let i = choose|i: int| 0 <= i < self.names@.len() && (#[trigger] self.names@[i])@ == t;
                        if i < before.len() {
                            assert(self.names@[i] == before[i]);
                        }
                    }
                    if t == name@ {
                        assert(self.names@[before.len() as int] == name);
                    }
                }
                assert(self@ =~= old(self)@.insert(name@));
            }
        } else {
            assert(old(self)@.insert(name@) =~= old(self)@);
        }
    }
}

/// The whitelist entry for a name read from an XML file: the name itself
/// when it ends with `.zip`, else the name with `.zip` appended.
pub open spec fn archive_name(name: Seq<char>) -> Seq<char> {
    if ends_with(name, ".zip"@) {
        name
    } else {
        name + ".zip"@
    }
}

/// The entries that `names` contribute: the archive name of every name that
/// `pattern` does not filter (the filter sees the name as written).
pub open spec fn admitted_entries(pattern: Seq<char>, names: Seq<Seq<char>>) -> Set<Seq<char>>
    decreases names.len(),
{
    if names.len() == 0 {
        Set::empty()
    } else {
        let earlier = admitted_entries(pattern, names.drop_last());
        if filtered_out(pattern, names.last()) {
            earlier
        } else {
            earlier.insert(archive_name(names.last()))
        }
    }
}

/// The archive name for `name`.
pub fn to_archive_name(name: &str) -> (r: String)
    ensures
        r@ == archive_name(name@),
{
    if str_ends_with(name, ".zip") {
        crate::text::copy_str(name)
    } else {
        joined(name, ".zip")
    }
}

/// Adds to `list` the entries that `names` contribute under `filter`.
pub fn admit_names(list: &mut Whitelist, names: &Vec<String>, filter: &NameFilter)
    ensures
        final(list)@ == old(list)@.union(admitted_entries(filter.pattern(), names@.map_values(|s: String| s@))),
{
    let ghost all = names@.map_values(|s: String| s@);
    let mut i: usize = 0;
    assert(all.take(0) == Seq::<Seq<char>>::empty());
    assert(old(list)@.union(Set::<Seq<char>>::empty()) =~= old(list)@);
    while i < names.len()
        invariant
            all == names@.map_values(|s: String| s@),
            i <= names.len(),
            list@ == old(list)@.union(admitted_entries(filter.pattern(), all.take(i as int))),
        decreases names.len() - i,
    {
        let ghost before = list@;
        assert(all.take(i + 1).drop_last() == all.take(i as int));
        assert(all.take(i + 1).last() == names@[i as int]@);
        if !should_filter(names[i].as_str(), filter) {
            let entry = to_archive_name(names[i].as_str());
            list.insert(entry);
            assert(list@ =~= old(list)@.union(admitted_entries(filter.pattern(), all.take(i + 1))));
        }
        i += 1;
    }
    assert(all.take(names.len() as int) == all);
}

/// Every whitelist entry ends with `.zip` and comes from a name that the
/// filter lets through.
pub proof fn law_entries_are_archives(pattern: Seq<char>, names: Seq<Seq<char>>, entry: Seq<char>)
    requires
        admitted_entries(pattern, names).contains(entry),
    ensures
        ends_with(entry, ".zip"@),
        exists|i: int| 0 <= i < names.len() && !filtered_out(pattern, #[trigger] names[i]) && entry == archive_name(names[i]),
    decreases names.len(),
{
    let earlier = admitted_entries(pattern, names.drop_last());
    if earlier.contains(entry) {
        law_entries_are_archives(pattern, names.drop_last(), entry);
        let i = choose|i: int| 0 <= i < names.drop_last().len() && !filtered_out(pattern, #[trigger] names.drop_last()[i]) && entry == archive_name(names.drop_last()[i]);
        assert(names[i] == names.drop_last()[i]);
    } else {
        let last = names.last();
        assert(entry == archive_name(last));
        assert(names[names.len() - 1] == last);
        if !ends_with(last, ".zip"@) {
            let z = ".zip"@;
            assert((last + z).subrange((last + z).len() - z.len(), (last + z).len() as int) =~= z);
        }
    }
}

/// What one XML document contributes: the archive names of the entries it
/// lists that the filter lets through, or nothing when it cannot be read as a
/// whitelist.
pub open spec fn document_entries(pattern: Seq<char>, document: Seq<char>) -> Set<Seq<char>> {
    match whitelist_scan(xml_tokens_of(document)) {
        ScanOutcome::Names(names) => admitted_entries(pattern, names),
        _ => Set::empty(),
    }
}

/// What all the documents contribute together.
pub open spec fn documents_entries(pattern: Seq<char>, documents: Seq<String>) -> Set<Seq<char>>
    decreases documents.len(),
{
    if documents.len() == 0 {
        Set::empty()
    } else {
        documents_entries(pattern, documents.drop_last()).union(document_entries(pattern, documents.last()@))
    }
}

/// The whitelist that the XML documents describe under `filter`, and for each
/// document whether it could be read (`None`) or the error that stopped it;
/// a document that cannot be read contributes nothing and the others still
/// count.
pub fn collect_whitelist(documents: &Vec<String>, filter: &NameFilter) -> (r: (Whitelist, Vec<Option<WhitelistError>>))
    ensures
        r.0@ == documents_entries(filter.pattern(), documents@),
        r.1@.len() == documents@.len(),
        forall|i: int| 0 <= i < documents@.len() ==> match #[trigger] r.1@[i] {
            None => whitelist_scan(xml_tokens_of(documents@[i]@)) is Names,
            Some(e) => outcome_of(Err(e)) == whitelist_scan(xml_tokens_of(documents@[i]@)),
        },
{
    let mut list = Whitelist::new();
    let mut failures: Vec<Option<WhitelistError>> = Vec::new();
    let mut i: usize = 0;
    assert(list@ =~= documents_entries(filter.pattern(), documents@.take(0)));
    while i < documents.len()
        invariant
            i <= documents.len(),
            list@ == documents_entries(filter.pattern(), documents@.take(i as int)),
            failures@.len() == i,
            forall|k: int| 0 <= k < i ==> match #[trigger] failures@[k] {
                None => whitelist_scan(xml_tokens_of(documents@[k]@)) is Names,
                Some(e) => outcome_of(Err(e)) == whitelist_scan(xml_tokens_of(documents@[k]@)),
            },
        decreases documents.len() - i,
    {
        assert(documents@.take(i + 1).drop_last() == documents@.take(i as int));
        assert(documents@.take(i + 1).last() == documents@[i as int]);
        let result = parse_xml_whitelist(documents[i].as_str());
        match result {
            Ok(names) => {
                admit_names(&mut list, &names, filter);
                failures.push(None);
            },
            Err(e) => {
                failures.push(Some(e));
                assert(document_entries(filter.pattern(), documents@[i as int]@) =~= Set::<Seq<char>>::empty());
                assert(list@ =~= list@.union(Set::<Seq<char>>::empty()));
            },
        }
        i += 1;
    }
    assert(documents@.take(documents.len() as int) == documents@);
    (list, failures)
}

/// Every entry of a whitelist gathered from documents ends with `.zip` and is
/// the archive name of an entry that one readable document lists and the
/// filter lets through.
pub proof fn law_collected_entries_are_archives(pattern: Seq<char>, documents: Seq<String>, entry: Seq<char>)
    requires
        documents_entries(pattern, documents).contains(entry),
    ensures
        ends_with(entry, ".zip"@),
        exists|d: int|
            0 <= d < documents.len() && whitelist_scan(xml_tokens_of(documents[d]@)) is Names
                && (#[trigger] document_entries(pattern, documents[d]@)).contains(entry),
    decreases documents.len(),
{
    let earlier = documents.drop_last();
    if documents_entries(pattern, earlier).contains(entry) {
        law_collected_entries_are_archives(pattern, earlier, entry);
        let d = choose|d: int|
            0 <= d < earlier.len() && whitelist_scan(xml_tokens_of(earlier[d]@)) is Names
                && (#[trigger] document_entries(pattern, earlier[d]@)).contains(entry);
        assert(documents[d] == earlier[d]);
    } else {
        let last = documents.last();
        assert(documents[documents.len() - 1] == last);
        match whitelist_scan(xml_tokens_of(last@)) {
            ScanOutcome::Names(names) => {
                law_entries_are_archives(pattern, names, entry);
                assert(document_entries(pattern, documents[documents.len() - 1]@).contains(entry));
            },
            _ => {},
        }
    }
}

/// Every document counts in full: all it contributes is in the gathered
/// whitelist, whatever the other documents hold or fail on.
pub proof fn law_every_document_counts(pattern: Seq<char>, documents: Seq<String>, d: int, entry: Seq<char>)
    requires
        0 <= d < documents.len(),
        document_entries(pattern, documents[d]@).contains(entry),
    ensures
        documents_entries(pattern, documents).contains(entry),
    decreases documents.len(),
{
    if d < documents.len() - 1 {
        assert(documents.drop_last()[d] == documents[d]);
        law_every_document_counts(pattern, documents.drop_last(), d, entry);
    }
}

/// An archive name keeps the name it is made from as its beginning, adds
/// nothing to a name that already ends with `.zip`, adds exactly `.zip`
/// otherwise, and making it twice changes nothing.
pub proof fn law_archive_name(name: Seq<char>)
    ensures
        archive_name(name).subrange(0, name.len() as int) == name,
        ends_with(name, ".zip"@) ==> archive_name(name) == name,
        !ends_with(name, ".zip"@) ==> archive_name(name) == name + ".zip"@,
        ends_with(archive_name(name), ".zip"@),
        archive_name(archive_name(name)) == archive_name(name),
{
    let z = ".zip"@;
    assert(archive_name(name).subrange(0, name.len() as int) =~= name);
    if !ends_with(name, z) {
        assert((name + z).subrange((name + z).len() - z.len(), (name + z).len() as int) =~= z);
    }
}

/// A name the filter leaves out adds nothing, and one it lets through adds
/// its archive name: adding names one at a time and all at once agree.
pub proof fn law_admitting_one_name(pattern: Seq<char>, names: Seq<Seq<char>>, name: Seq<char>)
    ensures
        filtered_out(pattern, name) ==> admitted_entries(pattern, names.push(name)) == admitted_entries(pattern, names),
        !filtered_out(pattern, name) ==> admitted_entries(pattern, names.push(name)) == admitted_entries(pattern, names).insert(
            archive_name(name),
        ),
{
    assert(names.push(name).drop_last() == names);
}

} // verus!
