//! The registry of installations.

use std::collections::HashMap;
use vstd::prelude::*;
use vstd::std_specs::hash::group_hash_axioms;

use crate::errors::{ErrorKind, Fault, JavaLocatorError, Result, Verdict};
use crate::host::{agrees, slices, Outcome, Reply, Step};
use crate::info::{major_version, Installation, JavaInfo};
use crate::model::Model;
use crate::select::{
    count, lemma_count, lemma_positions, lemma_select, lemma_select_step, positions, select,
    Criterion,
};
use crate::text::{
    chars_of, decimal, decimal_of, includes, lowercase, same, string_of, to_lowercase,
};

verus! {

broadcast use group_hash_axioms;

/// What a registry holds: the records in their order, and which of them is
/// the default.
pub struct Registry {
    pub installations: Seq<Installation>,
    pub default_position: Option<int>,
}

impl Registry {
    /// The registry that holds nothing.
    pub open spec fn empty() -> Registry {
        Registry { installations: Seq::empty(), default_position: None }
    }

    /// The default record, if there is one.
    pub open spec fn default_record(self) -> Option<Installation> {
        match self.default_position {
            Some(d) => Some(self.installations[d]),
            None => None,
        }
    }

    /// The first record that a criterion admits, if there is one.
    pub open spec fn first(self, criterion: Criterion) -> Option<Installation> {
        if select(self.installations, criterion).len() > 0 {
            Some(select(self.installations, criterion)[0])
        } else {
            None
        }
    }
}

/// The records that references point to.
pub open spec fn shown(refs: Seq<&JavaInfo>) -> Seq<Installation> {
    refs.map_values(|r: &JavaInfo| r@)
}

/// The positions that a bucket of the index holds.
pub open spec fn held(bucket: Seq<usize>) -> Seq<int> {
    bucket.map_values(|i: usize| i as int)
}

/// What the index holds for a major version: nothing where it has no
/// bucket for it.
pub open spec fn indexed(index: Map<u32, Vec<usize>>, major: u32) -> Seq<int> {
    if index.contains_key(major) {
        held(index[major]@)
    } else {
        Seq::empty()
    }
}

/// The error of a registry without default.
pub open spec fn no_default_fault() -> Fault {
    Fault { kind: ErrorKind::NotFound, description: "No default Java installation set"@ }
}

/// The error of a registry without a record of a major version.
pub open spec fn no_version_fault(major: u32) -> Fault {
    Fault {
        kind: ErrorKind::NotFound,
        description: "Java version "@ + decimal(major as nat) + " not found"@,
    }
}

/// The installations that are known, in the order in which they were
/// added, with an index by major version and a default.
pub struct JavaManager {
    java_installations: Vec<JavaInfo>,
    default_index: Option<usize>,
    version_map: HashMap<u32, Vec<usize>>,
}

impl View for JavaManager {
    type V = Registry;

    closed spec fn view(&self) -> Registry {
        Registry {
            installations: self.java_installations.model(),
            default_position: match self.default_index {
                Some(d) => Some(d as int),
                None => None,
            },
        }
    }
}

impl JavaManager {
    /// The registry is consistent: the default, where there is one, is the
    /// position of a record, there is a default as soon as there is a
    /// record, and the index holds for each major version the positions of
    /// the records that state it.
    pub closed spec fn wf(&self) -> bool {
        &&& match self.default_index {
            Some(d) => d < self.java_installations@.len(),
            None => self.java_installations@.len() == 0,
        }
        &&& forall|major: u32|
            #[trigger] indexed(self.version_map@, major) == positions(
                self@.installations,
                Criterion::Version(major),
            )
    }

    /// In a consistent registry the default is none or the position of a
    /// record, and it is none only where there is no record.
    pub proof fn lemma_default_is_valid(&self)
        requires
            self.wf(),
        ensures
            match self@.default_position {
                Some(d) => 0 <= d < self@.installations.len(),
                None => self@.installations.len() == 0,
            },
    {
    }

    /// A registry that holds nothing.
    pub fn new() -> (manager: JavaManager)
        ensures
            manager.wf(),
            manager@ == Registry::empty(),
    {
        let manager = JavaManager {
            java_installations: Vec::new(),
            default_index: None,
            version_map: HashMap::new(),
        };
        proof {
            assert(manager@.installations =~= Seq::empty());
        }
        manager
    }

    /// Adds every installation that a discovery found, in its order. The
    /// default stays; a registry that held nothing gets the first one found
    /// as its default.
    pub fn discover_installations(&mut self, discovered: Vec<JavaInfo>)
        requires
            old(self).wf(),
        ensures
            final(self).wf(),
            final(self)@.installations == old(self)@.installations + discovered.model(),
            final(self)@.default_position == match old(self)@.default_position {
                Some(d) => Some(d),
                None => if discovered@.len() > 0 {
                    Some(0int)
                } else {
                    None
                },
            },
    {
        let mut i: usize = 0;
        proof {
            assert(discovered.model().take(0) =~= Seq::<Installation>::empty());
            assert(self@.installations + Seq::<Installation>::empty() =~= self@.installations);
        }
        while i < discovered.len()
            invariant
                i <= discovered@.len(),
                self.wf(),
                old(self).wf(),
                self@.installations == old(self)@.installations + discovered.model().take(
                    i as int,
                ),
                self@.default_position == match old(self)@.default_position {
                    Some(d) => Some(d),
                    None => if i > 0 {
                        Some(0int)
                    } else {
                        None
                    },
                },
            decreases discovered@.len() - i,
        {
            let ghost before = self@.installations;
            self.add(discovered[i].clone());
            proof {
                assert(discovered.model().take(i + 1) =~= discovered.model().take(
                    i as int,
                ).push(discovered@[i as int]@));
                assert(before.push(discovered@[i as int]@) =~= old(self)@.installations
                    + discovered.model().take(i + 1));
            }
            i += 1;
        }
        proof {
            assert(discovered.model().take(discovered@.len() as int) =~= discovered.model());
        }
    }

    /// Adds an installation at the end. It becomes the default if there is
    /// none. Whether its path is already known is not looked at.
    pub fn add(&mut self, java_info: JavaInfo)
        requires
            old(self).wf(),
        ensures
            final(self).wf(),
            final(self)@.installations == old(self)@.installations.push(java_info@),
            final(self)@.default_position == match old(self)@.default_position {
                Some(d) => Some(d),
                None => Some(old(self)@.installations.len() as int),
            },
    {
        let index = self.java_installations.len();
        let major = java_info.get_major_version();
        let ghost list = self@.installations;
        let ghost index_before = self.version_map@;
        self.java_installations.push(java_info);
        proof {
            assert(self@.installations =~= list.push(java_info@));
            assert(self@.installations.drop_last() =~= list);
        }
        match major {
            Some(version) => {
                let mut bucket: Vec<usize> = match self.version_map.remove(&version) {
                    Some(bucket) => bucket,
                    None => Vec::new(),
                };
                proof {
                    assert(held(bucket@) =~= indexed(index_before, version));
                }
                let ghost bucket_before = bucket@;
                bucket.push(index);
                proof {
                    assert(held(bucket@) =~= held(bucket_before).push(index as int));
                }
                self.version_map.insert(version, bucket);
                proof {
                    assert forall|other: u32|
                        #[trigger] indexed(self.version_map@, other) == positions(
                            self@.installations,
                            Criterion::Version(other),
                        ) by {
                        assert(indexed(index_before, other) == positions(
                            list,
                            Criterion::Version(other),
                        ));
                    }
                }
            },
            None => {
                proof {
                    assert forall|other: u32|
                        #[trigger] indexed(self.version_map@, other) == positions(
                            self@.installations,
                            Criterion::Version(other),
                        ) by {
                        assert(indexed(index_before, other) == positions(
                            list,
                            Criterion::Version(other),
                        ));
                    }
                }
            },
        }
        if self.default_index.is_none() {
            self.default_index = Some(index);
        }
    }

    /// The installation at a position.
    pub fn get(&self, index: usize) -> (found: Option<&JavaInfo>)
        ensures
            match found {
                Some(info) => index < self@.installations.len() && info@
                    == self@.installations[index as int],
                None => index >= self@.installations.len(),
            },
    {
        if index < self.java_installations.len() {
            Some(&self.java_installations[index])
        } else {
            None
        }
    }

    /// The first installation of a major version.
    pub fn get_by_version(&self, version: u32) -> (found: Option<&JavaInfo>)
        requires
            self.wf(),
        ensures
            found.model() == self@.first(Criterion::Version(version)),
            found matches Some(info) ==> major_version(info@.version) == Some(version),
    {
        proof {
            lemma_positions(self@.installations, Criterion::Version(version));
            assert(indexed(self.version_map@, version) == positions(
                self@.installations,
                Criterion::Version(version),
            ));
        }
        match self.version_map.get(&version) {
            Some(bucket) => {
                if bucket.len() > 0 {
                    let index = bucket[0];
                    proof {
                        assert(held(bucket@)[0] == index);
                    }
                    self.get(index)
                } else {
                    None
                }
            },
            None => None,
        }
    }

    /// All installations of a major version, in the order in which they
    /// were added.
    pub fn get_all_by_version(&self, version: u32) -> (found: Vec<&JavaInfo>)
        requires
            self.wf(),
        ensures
            shown(found@) == select(self@.installations, Criterion::Version(version)),
            found@.len() == count(self@.installations, Criterion::Version(version)),
            forall|k: int|
                0 <= k < found@.len() ==> major_version(#[trigger] found@[k]@.version) == Some(
                    version,
                ),
    {
        let mut found: Vec<&JavaInfo> = Vec::new();
        let ghost wanted = positions(self@.installations, Criterion::Version(version));
        proof {
            lemma_positions(self@.installations, Criterion::Version(version));
            lemma_select(self@.installations, Criterion::Version(version));
            assert(indexed(self.version_map@, version) == wanted);
        }
        match self.version_map.get(&version) {
            Some(bucket) => {
                let mut k: usize = 0;
                while k < bucket.len()
                    invariant
                        k <= bucket@.len(),
                        held(bucket@) == wanted,
                        wanted == positions(self@.installations, Criterion::Version(version)),
                        forall|j: int|
                            0 <= j < wanted.len() ==> 0 <= #[trigger] wanted[j]
                                < self@.installations.len(),
                        shown(found@) == select(
                            self@.installations,
                            Criterion::Version(version),
                        ).take(k as int),
                    decreases bucket@.len() - k,
                {
                    let index = bucket[k];
                    proof {
                        assert(held(bucket@)[k as int] == index);
                        assert(wanted[k as int] == index);
                    }
                    let ghost before = found@;
                    match self.get(index) {
                        Some(info) => {
                            found.push(info);
                            proof {
                                assert(shown(found@) =~= shown(before).push(info@));
                                assert(select(
                                    self@.installations,
                                    Criterion::Version(version),
                                ).take(k + 1) =~= select(
                                    self@.installations,
                                    Criterion::Version(version),
                                ).take(k as int).push(info@));
                            }
                        },
                        None => {},
                    }
                    k += 1;
                }
                proof {
                    assert(select(self@.installations, Criterion::Version(version)).take(
                        k as int,
                    ) =~= select(self@.installations, Criterion::Version(version)));
                }
            },
            None => {
                proof {
                    assert(shown(found@) =~= select(
                        self@.installations,
                        Criterion::Version(version),
                    ));
                }
            },
        }
        proof {
            assert forall|k: int| 0 <= k < found@.len() implies major_version(
                #[trigger] found@[k]@.version,
            ) == Some(version) by {
                assert(shown(found@)[k] == found@[k]@);
            }
        }
        found
    }

    /// The default installation.
    pub fn get_default(&self) -> (found: Option<&JavaInfo>)
        requires
            self.wf(),
        ensures
            found.model() == self@.default_record(),
    {
        match self.default_index {
            Some(index) => self.get(index),
            None => None,
        }
    }

    /// Makes the installation at a position the default, if there is one
    /// at that position, and tells whether it did.
    pub fn set_default(&mut self, index: usize) -> (done: bool)
        requires
            old(self).wf(),
        ensures
            final(self).wf(),
            done == (index < old(self)@.installations.len()),
            final(self)@.installations == old(self)@.installations,
            final(self)@.default_position == if done {
                Some(index as int)
            } else {
                old(self)@.default_position
            },
    {
        if index < self.java_installations.len() {
            self.default_index = Some(index);
            true
        } else {
            false
        }
    }

    /// Makes the first installation of a major version the default, if
    /// there is one of that version, and tells whether it did.
    pub fn set_default_by_version(&mut self, version: u32) -> (done: bool)
        requires
            old(self).wf(),
        ensures
            final(self).wf(),
            done == (positions(old(self)@.installations, Criterion::Version(version)).len() > 0),
            final(self)@.installations == old(self)@.installations,
            final(self)@.default_position == if done {
                Some(positions(old(self)@.installations, Criterion::Version(version))[0])
            } else {
                old(self)@.default_position
            },
    {
        proof {
            lemma_positions(self@.installations, Criterion::Version(version));
            assert(indexed(self.version_map@, version) == positions(
                self@.installations,
                Criterion::Version(version),
            ));
        }
        let first: Option<usize> = match self.version_map.get(&version) {
            Some(bucket) => if bucket.len() > 0 {
                proof {
                    assert(held(bucket@)[0] == bucket@[0]);
                }
                Some(bucket[0])
            } else {
                None
            },
            None => None,
        };
        match first {
            Some(index) => {
                self.default_index = Some(index);
                true
            },
            None => false,
        }
    }

    /// All installations, in the order in which they were added.
    pub fn list(&self) -> (all: &Vec<JavaInfo>)
        ensures
            all.model() == self@.installations,
    {
        &self.java_installations
    }

    /// How many installations there are.
    pub fn len(&self) -> (count: usize)
        ensures
            count == self@.installations.len(),
    {
        self.java_installations.len()
    }

    /// Whether there is no installation.
    pub fn is_empty(&self) -> (empty: bool)
        ensures
            empty == (self@.installations.len() == 0),
    {
        self.java_installations.len() == 0
    }

    /// The installations whose supplier holds the given text, whatever the
    /// case of either.
    pub fn filter_by_supplier(&self, supplier: &str) -> (found: Vec<&JavaInfo>)
        ensures
            shown(found@) == select(self@.installations, Criterion::Supplier(supplier@)),
    {
        let lowered = to_lowercase(supplier);
        let needle = chars_of(lowered.as_str());
        let ghost criterion = Criterion::Supplier(supplier@);
        let mut found: Vec<&JavaInfo> = Vec::new();
        let mut i: usize = 0;
        proof {
            assert(self@.installations.take(0) =~= Seq::<Installation>::empty());
            assert(shown(found@) =~= select(self@.installations.take(0), criterion));
        }
        while i < self.java_installations.len()
            invariant
                i <= self.java_installations@.len(),
                needle@ == lowercase(supplier@),
                criterion == Criterion::Supplier(supplier@),
                shown(found@) == select(self@.installations.take(i as int), criterion),
            decreases self.java_installations@.len() - i,
        {
            let info = &self.java_installations[i];
            let low = to_lowercase(info.suppliers.as_str());
            let hay = chars_of(low.as_str());
            let ghost before = found@;
            proof {
                lemma_select_step(self@.installations, criterion, i as int);
                assert(self@.installations[i as int] == info@);
            }
            if includes(hay.as_slice(), needle.as_slice()) {
                found.push(info);
                proof {
                    assert(shown(found@) =~= shown(before).push(info@));
                }
            }
            i += 1;
        }
        proof {
            assert(self@.installations.take(i as int) =~= self@.installations);
        }
        found
    }

    /// The installations whose architecture is exactly the given text.
    pub fn filter_by_architecture(&self, architecture: &str) -> (found: Vec<&JavaInfo>)
        ensures
            shown(found@) == select(self@.installations, Criterion::Architecture(architecture@)),
    {
        let wanted = chars_of(architecture);
        let ghost criterion = Criterion::Architecture(architecture@);
        let mut found: Vec<&JavaInfo> = Vec::new();
        let mut i: usize = 0;
        proof {
            assert(self@.installations.take(0) =~= Seq::<Installation>::empty());
            assert(shown(found@) =~= select(self@.installations.take(0), criterion));
        }
        while i < self.java_installations.len()
            invariant
                i <= self.java_installations@.len(),
                wanted@ == architecture@,
                criterion == Criterion::Architecture(architecture@),
                shown(found@) == select(self@.installations.take(i as int), criterion),
            decreases self.java_installations@.len() - i,
        {
            let info = &self.java_installations[i];
            let has = chars_of(info.architecture.as_str());
            let ghost before = found@;
            proof {
                lemma_select_step(self@.installations, criterion, i as int);
                assert(self@.installations[i as int] == info@);
            }
            if same(has.as_slice(), wanted.as_slice()) {
                found.push(info);
                proof {
                    assert(shown(found@) =~= shown(before).push(info@));
                }
            }
            i += 1;
        }
        proof {
            assert(self@.installations.take(i as int) =~= self@.installations);
        }
        found
    }

    /// Running the default installation for the text it prints.
    pub open spec fn default_run(
        registry: Registry,
        arguments: Seq<Seq<char>>,
        replies: Seq<Reply>,
    ) -> Outcome<Verdict<Seq<char>>> {
        match registry.default_record() {
            Some(record) => record.run_for_text(arguments, replies),
            None => Outcome::Done(Err(no_default_fault()), replies),
        }
    }

    /// Running the first installation of a major version for the text it
    /// prints.
    pub open spec fn version_run(
        registry: Registry,
        major: u32,
        arguments: Seq<Seq<char>>,
        replies: Seq<Reply>,
    ) -> Outcome<Verdict<Seq<char>>> {
        match registry.first(Criterion::Version(major)) {
            Some(record) => record.run_for_text(arguments, replies),
            None => Outcome::Done(Err(no_version_fault(major)), replies),
        }
    }

    /// Runs the default installation with the given arguments and gives
    /// what it printed. Fails where there is no default.
    pub fn execute_default(
        &self,
        arguments: &[&str],
        replies: &[Reply],
    ) -> (step: Step<Result<String>>)
        requires
            self.wf(),
        ensures
            agrees(step, replies@, Self::default_run(self@, slices(arguments@), replies@)),
    {
        match self.get_default() {
            Some(info) => info.execute_with_output(arguments, replies),
            None => {
                proof {
                    assert(replies@.skip(0) =~= replies@);
                }
                Step::Done(
                    Err(
                        JavaLocatorError::with_kind(
                            ErrorKind::NotFound,
                            String::from_str("No default Java installation set"),
                        ),
                    ),
                    0,
                )
            },
        }
    }

    /// Runs the first installation of a major version with the given
    /// arguments and gives what it printed. Fails where there is none of
    /// that version.
    pub fn execute_with_version(
        &self,
        version: u32,
        arguments: &[&str],
        replies: &[Reply],
    ) -> (step: Step<Result<String>>)
        requires
            self.wf(),
        ensures
            agrees(step, replies@, Self::version_run(self@, version, slices(arguments@), replies@)),
    {
        match self.get_by_version(version) {
            Some(info) => info.execute_with_output(arguments, replies),
            None => {
                proof {
                    assert(replies@.skip(0) =~= replies@);
                }
                let digits = decimal_of(version);
                let number = string_of(digits.as_slice());
                let mut text = String::from_str("Java version ");
                text.append(number.as_str());
                text.append(" not found");
                Step::Done(Err(JavaLocatorError::with_kind(ErrorKind::NotFound, text)), 0)
            },
        }
    }

    /// How many installations there are of each major version. Records
    /// whose version states no major version are not counted.
    pub fn get_version_summary(&self) -> (summary: HashMap<u32, usize>)
        ensures
            forall|major: u32|
                #[trigger] summary@.contains_key(major) <==> count(
                    self@.installations,
                    Criterion::Version(major),
                ) > 0,
            forall|major: u32|
                summary@.contains_key(major) ==> #[trigger] summary@[major] == count(
                    self@.installations,
                    Criterion::Version(major),
                ),
    {
        let mut summary: HashMap<u32, usize> = HashMap::new();
        let mut i: usize = 0;
        proof {
            assert(self@.installations.take(0) =~= Seq::<Installation>::empty());
        }
        while i < self.java_installations.len()
            invariant
                i <= self.java_installations@.len(),
                forall|major: u32|
                    #[trigger] summary@.contains_key(major) <==> positions(
                        self@.installations.take(i as int),
                        Criterion::Version(major),
                    ).len() > 0,
                forall|major: u32|
                    summary@.contains_key(major) ==> #[trigger] summary@[major] == positions(
                        self@.installations.take(i as int),
                        Criterion::Version(major),
                    ).len(),
            decreases self.java_installations@.len() - i,
        {
            let info = &self.java_installations[i];
            let ghost before = summary@;
            proof {
                assert(self@.installations[i as int] == info@);
                assert forall|major: u32| true implies #[trigger] positions(
                    self@.installations.take(i + 1),
                    Criterion::Version(major),
                ) == if Criterion::Version(major).admits(info@) {
                    positions(self@.installations.take(i as int), Criterion::Version(major)).push(
                        i as int,
                    )
                } else {
                    positions(self@.installations.take(i as int), Criterion::Version(major))
                } by {
                    lemma_select_step(self@.installations, Criterion::Version(major), i as int);
                }
            }
            match info.get_major_version() {
                Some(version) => {
                    let count: usize = match summary.get(&version) {
                        Some(c) => *c,
                        None => 0,
                    };
                    proof {
                        lemma_positions(
                            self@.installations.take(i as int),
                            Criterion::Version(version),
                        );
                    }
                    summary.insert(version, count + 1);
                },
                None => {},
            }
            i += 1;
        }
        proof {
            assert(self@.installations.take(i as int) =~= self@.installations);
            assert forall|major: u32|
                positions(self@.installations, Criterion::Version(major)).len() == count(
                    self@.installations,
                    Criterion::Version(major),
                ) by {
                lemma_count(self@.installations, Criterion::Version(major));
            }
        }
        summary
    }

    /// Forgets every installation, and the default with them.
    pub fn clear(&mut self)
        ensures
            final(self).wf(),
            final(self)@ == Registry::empty(),
    {
        self.java_installations.clear();
        self.version_map.clear();
        self.default_index = None;
        proof {
            assert(self@.installations =~= Seq::empty());
        }
    }
}

impl Default for JavaManager {
    /// A registry that holds nothing.
    fn default() -> (manager: JavaManager)
        ensures
            manager.wf(),
            manager@ == Registry::empty(),
    {
        JavaManager::new()
    }
}

/// A registry that holds nothing answers every query with nothing.
pub proof fn lemma_empty_registry(criterion: Criterion)
    ensures
        Registry::empty().default_record() is None,
        Registry::empty().first(criterion) is None,
        select(Registry::empty().installations, criterion) == Seq::<Installation>::empty(),
        positions(Registry::empty().installations, criterion) == Seq::<int>::empty(),
{
    assert(select(Registry::empty().installations, criterion) =~= Seq::<Installation>::empty());
}

} // verus!
