//! Completing a bank with files of the other one.
//!
//! Every file that the manifest declares is either in the target bank already, or
//! is copied there from the active bank; a file that is in neither fails the
//! update. Files that the manifest does not declare belong to something else and
//! are left alone.

use crate::hashing::FileHash;
use crate::logs::entry::{copy_texts, texts};
use crate::outside::{hex_of, hex_text, quoted, quoted_text, sha256};
use crate::text::{cat2, cat3, cat4, cat5, same_text, split_once};
use vstd::prelude::*;

verus! {

/// The file that holds the manifest of a sealed bank.
pub const IVD_MANIFEST_FILE: &'static str = "ivd-manifest.cbor";

/// The file that holds the signature of a sealed bank.
pub const IVD_SIGNATURE_FILE: &'static str = "ivd-signature.bin";

/// What completing a bank came to.
#[derive(Debug, Clone)]
pub struct SeedOutcome {
    /// The files that were copied from the active bank.
    pub copied: Vec<String>,
    /// What the active bank holds that the manifest does not declare.
    pub foreign: Vec<String>,
}

impl Default for SeedOutcome {
    /// Nothing was copied.
    fn default() -> (r: SeedOutcome)
        ensures
            r.copied@.len() == 0,
            r.foreign@.len() == 0,
    {
        SeedOutcome { copied: Vec::new(), foreign: Vec::new() }
    }
}

/// Why a bank cannot be completed.
#[derive(Debug, Clone)]
pub enum SeedError {
    NotFound(String),
    InvalidData(String),
    Other(String),
}

/// Why a bank cannot be completed.
pub enum SeedFault {
    NotFound(Seq<char>),
    InvalidData(Seq<char>),
    Other(Seq<char>),
}

impl View for SeedError {
    type V = SeedFault;

    open spec fn view(&self) -> SeedFault {
        match self {
            SeedError::NotFound(s) => SeedFault::NotFound(s@),
            SeedError::InvalidData(s) => SeedFault::InvalidData(s@),
            SeedError::Other(s) => SeedFault::Other(s@),
        }
    }
}

/// What stands under the name of a file in the active bank.
#[derive(Debug, Clone)]
pub enum SourceEntry {
    File,
    Link,
    /// A directory, or anything else that is no file.
    Odd,
    Absent,
    Unreadable(String),
}

/// What is to be done next to complete a bank.
#[derive(Debug, Clone)]
pub enum SeedAction {
    /// See whether the target bank is there.
    LookForTarget,
    /// See whether the target bank has a file.
    LookInTarget(String),
    /// See what the active bank has under a name.
    LookInSource(String),
    /// Copy a file from the active bank, with its mode.
    CopyFile(String),
    /// Make a link like the one in the active bank.
    CopyLink(String),
    /// List the names in the active bank.
    ListSource,
    Done(SeedOutcome),
    Failed(SeedError),
}

/// What was done to complete a bank, and what came of it.
#[derive(Debug)]
pub enum SeedEvent {
    Started,
    TargetThere(bool),
    TargetHas(bool),
    SourceIs(SourceEntry),
    Copied(Result<(), String>),
    Listed(Vec<String>),
}

/// The completing of one bank.
#[derive(Debug, Clone)]
pub struct SeedPass {
    pub source_dir: String,
    pub target_dir: String,
    /// The files that the manifest declares.
    pub required: Vec<String>,
    /// The file that is to be settled next.
    pub next: usize,
    pub copied: Vec<String>,
}

/// What is to be done next to complete a bank.
pub enum SeedStep {
    LookForTarget,
    LookInTarget(Seq<char>),
    LookInSource(Seq<char>),
    CopyFile(Seq<char>),
    CopyLink(Seq<char>),
    ListSource,
    Done { copied: Seq<Seq<char>>, foreign: Seq<Seq<char>> },
    Failed(SeedFault),
}

/// How far the completing of a bank has come.
pub struct SeedState {
    pub source_dir: Seq<char>,
    pub target_dir: Seq<char>,
    /// The files that the manifest declares.
    pub required: Seq<String>,
    /// The file that is to be settled next.
    pub next: nat,
    pub copied: Seq<Seq<char>>,
}

impl View for SeedPass {
    type V = SeedState;

    open spec fn view(&self) -> SeedState {
        SeedState {
            source_dir: self.source_dir@,
            target_dir: self.target_dir@,
            required: self.required@,
            next: self.next as nat,
            copied: texts(self.copied@),
        }
    }
}

impl View for SeedAction {
    type V = SeedStep;

    open spec fn view(&self) -> SeedStep {
        match self {
            SeedAction::LookForTarget => SeedStep::LookForTarget,
            SeedAction::LookInTarget(n) => SeedStep::LookInTarget(n@),
            SeedAction::LookInSource(n) => SeedStep::LookInSource(n@),
            SeedAction::CopyFile(n) => SeedStep::CopyFile(n@),
            SeedAction::CopyLink(n) => SeedStep::CopyLink(n@),
            SeedAction::ListSource => SeedStep::ListSource,
            SeedAction::Done(o) => SeedStep::Done {
                copied: texts(o.copied@),
                foreign: texts(o.foreign@),
            },
            SeedAction::Failed(e) => SeedStep::Failed(e@),
        }
    }
}

/// The first part of a path.
pub open spec fn first_part(path: Seq<char>) -> Seq<char> {
    match crate::text::cut(path, '/') {
        Some((head, _)) => head,
        None => path,
    }
}

/// A name that one of the declared files stands under.
pub open spec fn claimed(name: Seq<char>, required: Seq<String>) -> bool {
    exists|i: int| 0 <= i < required.len() && first_part((#[trigger] required[i])@) == name
}

/// A name that has nothing to do with the manifest.
pub open spec fn is_foreign(name: Seq<char>, required: Seq<String>) -> bool {
    name != IVD_MANIFEST_FILE@ && name != IVD_SIGNATURE_FILE@ && !claimed(name, required)
}

/// The names before `k` that have nothing to do with the manifest.
pub open spec fn foreign_names(names: Seq<String>, required: Seq<String>, k: nat) -> Seq<Seq<char>>
    decreases k,
{
    if k == 0 {
        Seq::empty()
    } else {
        let before = foreign_names(names, required, (k - 1) as nat);
        if is_foreign(names[k - 1]@, required) {
            before.push(names[k - 1]@)
        } else {
            before
        }
    }
}

fn is_claimed(name: &str, required: &Vec<String>) -> (r: bool)
    ensures
        r == claimed(name@, required@),
{
    let mut i: usize = 0;
    while i < required.len()
        invariant
            i <= required@.len(),
            forall|j: int| 0 <= j < i ==> first_part((#[trigger] required@[j])@) != name@,
        decreases required@.len() - i,
    {
        let part = match split_once(required[i].as_str(), '/') {
            Some(p) => p.0,
            None => required[i].clone(),
        };
        assert(part@ == first_part(required@[i as int]@));
        if same_text(part.as_str(), name) {
            return true;
        }
        i += 1;
    }
    false
}

/// The names that have nothing to do with the manifest.
pub fn foreign_entries(names: &Vec<String>, required: &Vec<String>) -> (r: Vec<String>)
    ensures
        texts(r@) == foreign_names(names@, required@, names@.len()),
{
    let mut r: Vec<String> = Vec::new();
    let mut i: usize = 0;
    assert(texts(r@) =~= foreign_names(names@, required@, 0));
    while i < names.len()
        invariant
            i <= names@.len(),
            texts(r@) == foreign_names(names@, required@, i as nat),
        decreases names@.len() - i,
    {
        let ghost before = r@;
        let name = names[i].as_str();
        if !same_text(name, IVD_MANIFEST_FILE) && !same_text(name, IVD_SIGNATURE_FILE)
            && !is_claimed(name, required) {
            let kept = names[i].clone();
            r.push(kept);
            assert(texts(r@) =~= texts(before).push(name@));
        }
        i += 1;
    }
    r
}

/// Why a file that is in neither bank fails the update.
pub open spec fn missing_text(name: Seq<char>, target: Seq<char>, source: Seq<char>) -> Seq<char> {
    ("required file "@ + quoted_text(name) + " is in neither the target bank ("@ + target
        + ") nor the active bank ("@) + source + ") — the bank cannot be completed"@
}

/// Why something that is no file fails the update.
pub open spec fn odd_text(name: Seq<char>, source: Seq<char>) -> Seq<char> {
    "required file "@ + quoted_text(name) + " in the active bank ("@ + source
        + ") is neither a file nor a symlink"@
}

/// One of the first `n` declared files has the name.
pub open spec fn declared_before(required: Seq<String>, n: nat, name: Seq<char>) -> bool {
    exists|j: int| 0 <= j < n && j < required.len() && (#[trigger] required[j])@ == name
}

proof fn lemma_declared_longer(required: Seq<String>, n: nat)
    requires
        n < required.len(),
    ensures
        forall|name: Seq<char>| #[trigger]
            declared_before(required, n, name) ==> declared_before(required, n + 1, name),
        declared_before(required, n + 1, required[n as int]@),
{
    assert(required[n as int]@ == required[n as int]@);
}

impl SeedState {
    /// The name of the file that is to be settled next.
    pub open spec fn pending(self) -> Seq<char> {
        self.required[self.next as int]@
    }

    /// What is to be done once the files before the next one are settled.
    pub open spec fn look(self) -> SeedStep {
        if self.next < self.required.len() {
            SeedStep::LookInTarget(self.pending())
        } else {
            SeedStep::ListSource
        }
    }

    /// The state after the next file was settled.
    pub open spec fn settled(self) -> SeedState {
        SeedState { next: self.next + 1, ..self }
    }

    /// The state after the next file was copied.
    pub open spec fn with_copy(self) -> SeedState {
        SeedState { copied: self.copied.push(self.pending()), ..self.settled() }
    }

    /// What is to be done next, and the state that is then reached.
    pub open spec fn step(self, event: SeedEvent) -> (SeedStep, SeedState) {
        match event {
            SeedEvent::Started => if self.required.len() == 0 {
                (SeedStep::Done { copied: Seq::empty(), foreign: Seq::empty() }, self)
            } else {
                (SeedStep::LookForTarget, self)
            },
            SeedEvent::TargetThere(there) => if there {
                (self.look(), self)
            } else {
                (
                    SeedStep::Failed(
                        SeedFault::NotFound("target dir does not exist: "@ + self.target_dir),
                    ),
                    self,
                )
            },
            SeedEvent::TargetHas(has) => if has {
                (self.settled().look(), self.settled())
            } else {
                (SeedStep::LookInSource(self.pending()), self)
            },
            SeedEvent::SourceIs(entry) => match entry {
                SourceEntry::File => (SeedStep::CopyFile(self.pending()), self),
                SourceEntry::Link => (SeedStep::CopyLink(self.pending()), self),
                SourceEntry::Odd => (
                    SeedStep::Failed(
                        SeedFault::InvalidData(odd_text(self.pending(), self.source_dir)),
                    ),
                    self,
                ),
                SourceEntry::Absent => (
                    SeedStep::Failed(
                        SeedFault::NotFound(
                            missing_text(self.pending(), self.target_dir, self.source_dir),
                        ),
                    ),
                    self,
                ),
                SourceEntry::Unreadable(why) => (SeedStep::Failed(SeedFault::Other(why@)), self),
            },
            SeedEvent::Copied(Ok(_)) => (self.with_copy().look(), self.with_copy()),
            SeedEvent::Copied(Err(why)) => (SeedStep::Failed(SeedFault::Other(why@)), self),
            SeedEvent::Listed(names) => (
                SeedStep::Done {
                    copied: self.copied,
                    foreign: foreign_names(names@, self.required, names@.len()),
                },
                self,
            ),
        }
    }
}

impl SeedPass {
    /// What was copied was declared, and the next file is one of them or the end.
    pub open spec fn wf(self) -> bool {
        &&& self.next <= self.required@.len()
        &&& forall|i: int|
            0 <= i < self.copied@.len() ==> declared_before(
                self.required@,
                self.next as nat,
                (#[trigger] self.copied@[i])@,
            )
    }

    /// Begins to complete a bank.
    pub fn new(source_dir: String, target_dir: String, required: Vec<String>) -> (p: SeedPass)
        ensures
            p.wf(),
            p.source_dir@ == source_dir@,
            p.target_dir@ == target_dir@,
            p.required@ == required@,
            p.next == 0,
            p.copied@.len() == 0,
    {
        SeedPass { source_dir, target_dir, required, next: 0, copied: Vec::new() }
    }

    /// A file is pending where the event is about one.
    pub open spec fn expects(self, event: SeedEvent) -> bool {
        (event is TargetHas || event is SourceIs || event is Copied) ==> self.next
            < self.required@.len()
    }

    fn go_on(&self) -> (r: SeedAction)
        requires
            self.wf(),
        ensures
            r@ == self@.look(),
    {
        if self.next < self.required.len() {
            SeedAction::LookInTarget(self.required[self.next].clone())
        } else {
            SeedAction::ListSource
        }
    }

    /// Takes what was done to complete the bank, and says what is to be done next.
    /// A bank for which nothing is declared needs nothing. The active bank is
    /// looked at only for a file that the target bank lacks.
    pub fn seed_missing_files(&mut self, event: SeedEvent) -> (r: SeedAction)
        requires
            old(self).wf(),
            old(self).expects(event),
        ensures
            final(self).wf(),
            (r@, final(self)@) == old(self)@.step(event),
    {
        let declared: usize = self.required.len();
        match event {
            SeedEvent::Started => {
                if declared == 0 {
                    let o = SeedOutcome::default();
                    assert(texts(o.copied@) =~= Seq::empty());
                    assert(texts(o.foreign@) =~= Seq::empty());
                    SeedAction::Done(o)
                } else {
                    SeedAction::LookForTarget
                }
            },
            SeedEvent::TargetThere(there) => {
                if there {
                    self.go_on()
                } else {
                    SeedAction::Failed(
                        SeedError::NotFound(
                            cat2("target dir does not exist: ", self.target_dir.as_str()),
                        ),
                    )
                }
            },
            SeedEvent::TargetHas(has) => {
                if has {
                    proof {
                        lemma_declared_longer(self.required@, self.next as nat);
                    }
                    self.next = self.next + 1;
                    self.go_on()
                } else {
                    SeedAction::LookInSource(self.required[self.next].clone())
                }
            },
            SeedEvent::SourceIs(entry) => {
                let name = self.required[self.next].as_str();
                match entry {
                    SourceEntry::File => SeedAction::CopyFile(name.to_owned()),
                    SourceEntry::Link => SeedAction::CopyLink(name.to_owned()),
                    SourceEntry::Odd => {
                        let q = quoted(name);
                        SeedAction::Failed(
                            SeedError::InvalidData(
                                cat5(
                                    "required file ",
                                    q.as_str(),
                                    " in the active bank (",
                                    self.source_dir.as_str(),
                                    ") is neither a file nor a symlink",
                                ),
                            ),
                        )
                    },
                    SourceEntry::Absent => {
                        let q = quoted(name);
                        let front = cat5(
                            "required file ",
                            q.as_str(),
                            " is in neither the target bank (",
                            self.target_dir.as_str(),
                            ") nor the active bank (",
                        );
                        SeedAction::Failed(
                            SeedError::NotFound(
                                cat3(
                                    front.as_str(),
                                    self.source_dir.as_str(),
                                    ") — the bank cannot be completed",
                                ),
                            ),
                        )
                    },
                    SourceEntry::Unreadable(why) => SeedAction::Failed(SeedError::Other(why)),
                }
            },
            SeedEvent::Copied(outcome) => match outcome {
                Ok(_) => {
                    let name = self.required[self.next].clone();
                    let ghost before = self.copied@;
                    proof {
                        lemma_declared_longer(self.required@, self.next as nat);
                        assert(self.required@[self.next as int]@ == name@);
                    }
                    self.copied.push(name);
                    self.next = self.next + 1;
                    proof {
                        assert(texts(self.copied@) =~= texts(before).push(name@));
                        assert forall|i: int| 0 <= i < self.copied@.len() implies declared_before(
                            self.required@,
                            self.next as nat,
                            (#[trigger] self.copied@[i])@,
                        ) by {
                            if i < before.len() {
                                assert(before[i] == self.copied@[i]);
                            }
                        }
                    }
                    self.go_on()
                },
                Err(why) => SeedAction::Failed(SeedError::Other(why)),
            },
            SeedEvent::Listed(names) => {
                let foreign = foreign_entries(&names, &self.required);
                let copied = copy_texts(&self.copied);
                SeedAction::Done(SeedOutcome { copied, foreign })
            },
        }
    }
}

/// A file is copied only if the manifest declares it: whatever else the active
/// bank holds stays where it is.
pub proof fn law_only_declared_files_are_copied(p: SeedPass, event: SeedEvent, name: Seq<char>)
    requires
        p.wf(),
        p.expects(event),
        p@.step(event).0 == SeedStep::CopyFile(name) || p@.step(event).0 == SeedStep::CopyLink(
            name,
        ),
    ensures
        declared(p.required@, name),
{
    assert(p.required@[p.next as int]@ == name);
}

/// The manifest declares a file of the name.
pub open spec fn declared(required: Seq<String>, name: Seq<char>) -> bool {
    exists|i: int| 0 <= i < required.len() && (#[trigger] required[i])@ == name
}

/// What stands there can be copied.
pub open spec fn copyable(entry: SourceEntry) -> bool {
    entry is File || entry is Link
}

/// How completing a bank runs from a step on, in up to `steps` steps: what was to be
/// done last, the state then, and the names in the target bank then. `bank` holds the
/// names that are in the target bank, `source` says what stands under a name in the
/// active bank, and copying works.
pub open spec fn seeded(
    s: SeedState,
    step: SeedStep,
    bank: Set<Seq<char>>,
    source: spec_fn(Seq<char>) -> SourceEntry,
    steps: nat,
) -> (SeedStep, SeedState, Set<Seq<char>>)
    decreases steps,
{
    if steps == 0 {
        (step, s, bank)
    } else {
        let rest = (steps - 1) as nat;
        match step {
            SeedStep::LookForTarget => {
                let t = s.step(SeedEvent::TargetThere(true));
                seeded(t.1, t.0, bank, source, rest)
            },
            SeedStep::LookInTarget(name) => {
                let t = s.step(SeedEvent::TargetHas(bank.contains(name)));
                seeded(t.1, t.0, bank, source, rest)
            },
            SeedStep::LookInSource(name) => {
                let t = s.step(SeedEvent::SourceIs(source(name)));
                seeded(t.1, t.0, bank, source, rest)
            },
            SeedStep::CopyFile(name) => {
                let t = s.step(SeedEvent::Copied(Ok(())));
                seeded(t.1, t.0, bank.insert(name), source, rest)
            },
            SeedStep::CopyLink(name) => {
                let t = s.step(SeedEvent::Copied(Ok(())));
                seeded(t.1, t.0, bank.insert(name), source, rest)
            },
            _ => (step, s, bank),
        }
    }
}

/// The names that are looked for in the active bank while completing a bank runs from a
/// step on, in order.
pub open spec fn asked_of_source(
    s: SeedState,
    step: SeedStep,
    bank: Set<Seq<char>>,
    source: spec_fn(Seq<char>) -> SourceEntry,
    steps: nat,
) -> Seq<Seq<char>>
    decreases steps,
{
    if steps == 0 {
        Seq::empty()
    } else {
        let rest = (steps - 1) as nat;
        match step {
            SeedStep::LookForTarget => {
                let t = s.step(SeedEvent::TargetThere(true));
                asked_of_source(t.1, t.0, bank, source, rest)
            },
            SeedStep::LookInTarget(name) => {
                let t = s.step(SeedEvent::TargetHas(bank.contains(name)));
                asked_of_source(t.1, t.0, bank, source, rest)
            },
            SeedStep::LookInSource(name) => {
                let t = s.step(SeedEvent::SourceIs(source(name)));
                seq![name] + asked_of_source(t.1, t.0, bank, source, rest)
            },
            SeedStep::CopyFile(name) => {
                let t = s.step(SeedEvent::Copied(Ok(())));
                asked_of_source(t.1, t.0, bank.insert(name), source, rest)
            },
            SeedStep::CopyLink(name) => {
                let t = s.step(SeedEvent::Copied(Ok(())));
                asked_of_source(t.1, t.0, bank.insert(name), source, rest)
            },
            _ => Seq::empty(),
        }
    }
}

/// The names among the first `k` declared ones that are not in a bank, in the order in
/// which they are declared and each once.
pub open spec fn missing_names(required: Seq<String>, k: nat, bank: Set<Seq<char>>) -> Seq<Seq<char>>
    decreases k,
{
    if k == 0 {
        Seq::empty()
    } else {
        let before = missing_names(required, (k - 1) as nat, bank);
        let name = required[k - 1]@;
        if bank.contains(name) || before.contains(name) {
            before
        } else {
            before.push(name)
        }
    }
}

/// Every declared file is in the target bank, or can be copied from the active one.
pub open spec fn completable(
    required: Seq<String>,
    bank: Set<Seq<char>>,
    source: spec_fn(Seq<char>) -> SourceEntry,
) -> bool {
    forall|i: int|
        0 <= i < required.len() ==> bank.contains((#[trigger] required[i])@) || copyable(
            source(required[i]@),
        )
}

/// So far the files before the next one are in the target bank, and what was copied
/// are those of them that were not there at the start, each once.
pub open spec fn seeded_so_far(
    s: SeedState,
    start: Set<Seq<char>>,
    bank: Set<Seq<char>>,
    source: spec_fn(Seq<char>) -> SourceEntry,
) -> bool {
    &&& s.next <= s.required.len()
    &&& forall|i: int| 0 <= i < s.next ==> bank.contains((#[trigger] s.required[i])@)
    &&& forall|n: Seq<char>| #[trigger]
        bank.contains(n) <==> start.contains(n) || s.copied.contains(n)
    &&& forall|n: Seq<char>| #[trigger]
        s.copied.contains(n) ==> !start.contains(n) && declared(s.required, n) && copyable(source(n))
    &&& s.copied.no_duplicates()
    &&& s.copied == missing_names(s.required, s.next, start)
}

proof fn lemma_seeding_goes_on(
    s: SeedState,
    start: Set<Seq<char>>,
    bank: Set<Seq<char>>,
    source: spec_fn(Seq<char>) -> SourceEntry,
    steps: nat,
)
    requires
        seeded_so_far(s, start, bank, source),
        steps > 3 * (s.required.len() - s.next),
    ensures
        ({
            let end = seeded(s, s.look(), bank, source, steps);
            if completable(s.required, start, source) {
                &&& end.0 is ListSource
                &&& end.1.required == s.required
                &&& end.1.next == s.required.len()
                &&& seeded_so_far(end.1, start, end.2, source)
                &&& end.1.copied == s.copied + asked_of_source(s, s.look(), bank, source, steps)
            } else {
                end.0 is Failed
            }
        }),
    decreases s.required.len() - s.next,
{
    if s.next < s.required.len() {
        let name = s.pending();
        assert(declared(s.required, name)) by {
            assert(s.required[s.next as int]@ == name);
        }
        if bank.contains(name) {
            let t = s.settled();
            assert forall|i: int| 0 <= i < t.next implies bank.contains(
                (#[trigger] t.required[i])@,
            ) by {
                if i < s.next {
                    assert(bank.contains(s.required[i]@));
                }
            }
            assert(asked_of_source(s, s.look(), bank, source, steps) == asked_of_source(
                t,
                t.look(),
                bank,
                source,
                (steps - 1) as nat,
            ));
            lemma_seeding_goes_on(t, start, bank, source, (steps - 1) as nat);
        } else if copyable(source(name)) {
            let t = s.with_copy();
            let more = bank.insert(name);
            assert(!s.copied.contains(name));
            assert forall|n: Seq<char>| #[trigger] t.copied.contains(n) <==> s.copied.contains(n)
                || n == name by {
                if t.copied.contains(n) && n != name {
                    let i = choose|i: int| 0 <= i < t.copied.len() && t.copied[i] == n;
                    assert(s.copied[i] == n);
                }
                if s.copied.contains(n) {
                    let i = choose|i: int| 0 <= i < s.copied.len() && s.copied[i] == n;
                    assert(t.copied[i] == n);
                }
                assert(t.copied[s.copied.len() as int] == name);
            }
            assert(t.copied.no_duplicates()) by {
                assert forall|i: int, j: int|
                    0 <= i < t.copied.len() && 0 <= j < t.copied.len() && i != j implies t.copied[i]
                    != t.copied[j] by {
                    if i < s.copied.len() && j == s.copied.len() {
                        assert(s.copied.contains(s.copied[i]));
                    }
                    if j < s.copied.len() && i == s.copied.len() {
                        assert(s.copied.contains(s.copied[j]));
                    }
                }
            }
            assert forall|i: int| 0 <= i < t.next implies more.contains(
                (#[trigger] t.required[i])@,
            ) by {
                if i < s.next {
                    assert(bank.contains(s.required[i]@));
                }
            }
            let one = (steps - 1) as nat;
            let two = (steps - 2) as nat;
            assert(seeded(s, s.look(), bank, source, steps) == seeded(
                s,
                SeedStep::LookInSource(name),
                bank,
                source,
                one,
            ));
            assert(seeded(s, SeedStep::LookInSource(name), bank, source, one) == seeded(
                s,
                s.step(SeedEvent::SourceIs(source(name))).0,
                bank,
                source,
                two,
            ));
            lemma_seeding_goes_on(t, start, more, source, (steps - 3) as nat);
            let copy = s.step(SeedEvent::SourceIs(source(name))).0;
            let later = asked_of_source(t, t.look(), more, source, (steps - 3) as nat);
            assert(asked_of_source(s, copy, bank, source, two) == later);
            assert(asked_of_source(s, SeedStep::LookInSource(name), bank, source, one) == seq![name]
                + later);
            assert(s.copied + (seq![name] + later) =~= t.copied + later);
        } else {
            assert(!completable(s.required, start, source)) by {
                assert(!start.contains(s.required[s.next as int]@));
            }
            reveal_with_fuel(seeded, 3);
        }
    } else {
        assert(s.copied + asked_of_source(s, s.look(), bank, source, steps) =~= s.copied);
        assert(completable(s.required, start, source)) by {
            assert forall|i: int| 0 <= i < s.required.len() implies start.contains(
                (#[trigger] s.required[i])@,
            ) || copyable(source(s.required[i]@)) by {
                assert(bank.contains(s.required[i]@));
            }
        }
    }
}

/// Completing a bank makes it complete, or fails. It fails exactly where some declared
/// file is in neither bank. Else every declared file is in the target bank at the
/// end; what was copied are the declared files that were not there before, each once
/// and in the order in which they are declared; only they were looked for in the active
/// bank; and nothing else has changed in the target bank.
pub proof fn law_seeding_completes_the_bank(
    s: SeedState,
    bank: Set<Seq<char>>,
    source: spec_fn(Seq<char>) -> SourceEntry,
    steps: nat,
)
    requires
        s.next == 0,
        s.copied.len() == 0,
        steps > 3 * s.required.len() + 1,
    ensures
        ({
            let end = seeded(s, SeedStep::LookForTarget, bank, source, steps);
            &&& completable(s.required, bank, source) ==> {
                &&& end.0 is ListSource
                &&& forall|n: Seq<char>| #[trigger]
                    declared(s.required, n) ==> end.2.contains(n)
                &&& forall|n: Seq<char>| #[trigger]
                    end.1.copied.contains(n) <==> declared(s.required, n) && !bank.contains(n)
                &&& forall|n: Seq<char>| #[trigger]
                    end.2.contains(n) <==> bank.contains(n) || end.1.copied.contains(n)
                &&& end.1.copied.no_duplicates()
                &&& end.1.copied == missing_names(s.required, s.required.len(), bank)
                &&& asked_of_source(s, SeedStep::LookForTarget, bank, source, steps)
                    == end.1.copied
            }
            &&& !completable(s.required, bank, source) ==> end.0 is Failed
        }),
{
    assert(s.copied =~= missing_names(s.required, 0, bank));
    lemma_seeding_goes_on(s, bank, bank, source, (steps - 1) as nat);
    let end = seeded(s, SeedStep::LookForTarget, bank, source, steps);
    assert(end == seeded(s, s.look(), bank, source, (steps - 1) as nat));
    if completable(s.required, bank, source) {
        let asked = asked_of_source(s, s.look(), bank, source, (steps - 1) as nat);
        assert(asked_of_source(s, SeedStep::LookForTarget, bank, source, steps) == asked);
        assert(s.copied + asked =~= asked);
        assert forall|n: Seq<char>| #[trigger] declared(s.required, n) implies end.2.contains(n) by {
            let i = choose|i: int| 0 <= i < s.required.len() && (#[trigger] s.required[i])@ == n;
            assert(end.2.contains(end.1.required[i]@));
        }
        assert forall|n: Seq<char>| #[trigger] end.1.copied.contains(n) <==> declared(s.required, n)
            && !bank.contains(n) by {
            if declared(s.required, n) && !bank.contains(n) {
                assert(end.2.contains(n));
            }
        }
    }
}

/// Completing a bank that is complete looks for no file in the active bank, copies
/// nothing and changes nothing; so does completing one for the second time.
pub proof fn law_seeding_again_copies_nothing(
    s: SeedState,
    bank: Set<Seq<char>>,
    source: spec_fn(Seq<char>) -> SourceEntry,
    steps: nat,
)
    requires
        s.next == 0,
        s.copied.len() == 0,
        steps > 3 * s.required.len() + 1,
        forall|n: Seq<char>| #[trigger] declared(s.required, n) ==> bank.contains(n),
    ensures
        ({
            let end = seeded(s, SeedStep::LookForTarget, bank, source, steps);
            &&& end.0 is ListSource
            &&& end.1.copied.len() == 0
            &&& end.2 =~= bank
            &&& asked_of_source(s, SeedStep::LookForTarget, bank, source, steps).len() == 0
        }),
{
    assert(completable(s.required, bank, source)) by {
        assert forall|i: int| 0 <= i < s.required.len() implies bank.contains(
            (#[trigger] s.required[i])@,
        ) by {
            assert(declared(s.required, s.required[i]@));
        }
    }
    law_seeding_completes_the_bank(s, bank, source, steps);
    let end = seeded(s, SeedStep::LookForTarget, bank, source, steps);
    if end.1.copied.len() > 0 {
        assert(end.1.copied.contains(end.1.copied[0]));
    }
    assert forall|n: Seq<char>| end.2.contains(n) <==> bank.contains(n) by {
        if end.1.copied.contains(n) {
            let i = choose|i: int| 0 <= i < end.1.copied.len() && end.1.copied[i] == n;
        }
    }
}

/// Where nothing is declared there is nothing to do: neither bank is looked at.
pub proof fn law_nothing_declared_nothing_done(s: SeedState)
    requires
        s.required.len() == 0,
    ensures
        s.step(SeedEvent::Started) == (
            SeedStep::Done { copied: Seq::empty(), foreign: Seq::empty() },
            s,
        ),
{
}

// ---------------------------------------------------------------------------
// Copying forward
// ---------------------------------------------------------------------------

/// Why a file of the active bank is not copied forward.
#[derive(Debug, Clone)]
pub enum CopyForwardError {
    /// The active bank has no such file.
    MissingActive(String),
    /// The file of the active bank is not what the manifest promises.
    DigestMismatch { name: String, expected: Vec<u8>, actual: [u8; 32] },
    /// Reading or writing failed, and where.
    Io(String, String),
}

/// There is nothing to copy.
pub open spec fn missing_copy(path: Seq<char>) -> Seq<char> {
    "active bank has no file to copy forward: "@ + path
}

/// What is there is something else.
pub open spec fn stale_text(name: Seq<char>, actual: Seq<u8>, expected: Seq<u8>) -> Seq<char> {
    name + ": active bank digest "@ + hex_text(actual) + " != manifest-declared "@ + hex_text(
        expected,
    ) + " — vehicle does not already have this content"@
}

/// The copy was broken off.
pub open spec fn broken_copy(why: Seq<char>, path: Seq<char>) -> Seq<char> {
    "copy-forward io "@ + path + ": "@ + why
}

impl CopyForwardError {
    /// The refusal in words.
    pub open spec fn message(self) -> Seq<char> {
        match self {
            CopyForwardError::MissingActive(p) => missing_copy(p@),
            CopyForwardError::DigestMismatch { name, expected, actual } => stale_text(
                name@,
                actual@,
                expected@,
            ),
            CopyForwardError::Io(e, p) => broken_copy(e@, p@),
        }
    }

    /// The refusal in words.
    pub fn to_text(&self) -> (r: String)
        ensures
            r@ == self.message(),
    {
        match self {
            CopyForwardError::MissingActive(p) => cat2(
                "active bank has no file to copy forward: ",
                p.as_str(),
            ),
            CopyForwardError::DigestMismatch { name, expected, actual } => {
                let a = hex_of(actual.as_slice());
                let e = hex_of(expected.as_slice());
                let front = cat5(
                    name.as_str(),
                    ": active bank digest ",
                    a.as_str(),
                    " != manifest-declared ",
                    e.as_str(),
                );
                cat2(front.as_str(), " — vehicle does not already have this content")
            },
            CopyForwardError::Io(e, p) => cat4("copy-forward io ", p.as_str(), ": ", e.as_str()),
        }
    }
}

/// What came of copying a file over while its digest was taken.
#[derive(Debug)]
pub enum Streamed {
    /// The active bank has no such file.
    Missing(String),
    /// Reading or writing failed, and where.
    Broken(String, String),
    /// All of it was copied.
    Whole(FileHash),
}

/// Two byte strings are the same.
pub fn same_bytes(a: &[u8], b: &[u8]) -> (r: bool)
    ensures
        r == (a@ == b@),
{
    if a.len() != b.len() {
        return false;
    }
    let mut i: usize = 0;
    while i < a.len()
        invariant
            i <= a@.len(),
            a@.len() == b@.len(),
            forall|j: int| 0 <= j < i ==> a@[j] == b@[j],
        decreases a@.len() - i,
    {
        if a[i] != b[i] {
            return false;
        }
        i += 1;
    }
    assert(a@ =~= b@);
    true
}

/// The answer on a file that was copied over.
pub open spec fn forwarded(
    name: Seq<char>,
    expected: Seq<u8>,
    streamed: Streamed,
    r: Result<([u8; 32], u64), CopyForwardError>,
) -> bool {
    match streamed {
        Streamed::Missing(path) => r matches Err(CopyForwardError::MissingActive(p)) && p@ == path@,
        Streamed::Broken(why, path) => r matches Err(CopyForwardError::Io(e, p)) && e@ == why@ && p@
            == path@,
        Streamed::Whole(read) => if sha256(read.bytes()) == expected {
            r matches Ok(f) && f.0@ == expected && f.1 == read.bytes().len()
        } else {
            match r {
                Err(CopyForwardError::DigestMismatch { name: n, expected: e, actual }) => n@ == name
                    && e@ == expected && actual@ == sha256(read.bytes()),
                _ => false,
            }
        },
    }
}

/// Whether a file that was copied over stays: only if it has the digest that the
/// manifest gives. The copy of a file that has another one is to be removed.
pub fn copy_forward_file(name: &str, expected: &Vec<u8>, streamed: Streamed) -> (r: Result<
    ([u8; 32], u64),
    CopyForwardError,
>)
    ensures
        forwarded(name@, expected@, streamed, r),
{
    match streamed {
        Streamed::Missing(path) => Err(CopyForwardError::MissingActive(path)),
        Streamed::Broken(why, path) => Err(CopyForwardError::Io(why, path)),
        Streamed::Whole(read) => {
            let found = read.finish();
            if same_bytes(found.0.as_slice(), expected.as_slice()) {
                Ok(found)
            } else {
                Err(
                    CopyForwardError::DigestMismatch {
                        name: name.to_owned(),
                        expected: crate::firmware::copy_bytes(expected),
                        actual: found.0,
                    },
                )
            }
        },
    }
}

/// A file is copied forward exactly when all of it was copied and it has the digest that
/// the manifest gives; what is then told of it is that digest and the size of what was
/// copied. A file that is something else is told apart from one that is not there and
/// from one that could not be copied.
pub proof fn law_only_the_promised_file_is_copied_forward(
    name: Seq<char>,
    expected: Seq<u8>,
    streamed: Streamed,
    r: Result<([u8; 32], u64), CopyForwardError>,
)
    requires
        forwarded(name, expected, streamed, r),
    ensures
        r is Ok <==> (streamed matches Streamed::Whole(read) && sha256(read.bytes()) == expected),
        r matches Ok(found) ==> found.0@ == expected && found.1
            == streamed->Whole_0.bytes().len(),
        streamed is Missing <==> (r matches Err(e) && e is MissingActive),
        streamed is Broken <==> (r matches Err(e) && e is Io),
        r matches Err(CopyForwardError::DigestMismatch { name: n, expected: e, actual }) ==> n@
            == name && e@ == expected && actual@ != expected,
{
}

/// Why completing a bank breaks off: the target bank is not there, a file is in neither
/// bank, something that is no file stands in its place, or it could not be looked at or
/// copied. Nothing counts as settled then.
pub proof fn law_seeding_breaks_off_for_a_reason(s: SeedState, event: SeedEvent)
    ensures
        s.step(event).0 is Failed <==> {
            ||| event == SeedEvent::TargetThere(false)
            ||| (event matches SeedEvent::SourceIs(entry) && !copyable(entry))
            ||| (event matches SeedEvent::Copied(outcome) && outcome is Err)
        },
        s.step(event).0 is Failed ==> s.step(event).1 == s,
        event == SeedEvent::TargetThere(false) ==> (s.step(event).0 matches SeedStep::Failed(why)
            && why is NotFound),
        event matches SeedEvent::SourceIs(SourceEntry::Absent) ==> (s.step(
            event,
        ).0 matches SeedStep::Failed(why) && why is NotFound),
        event matches SeedEvent::SourceIs(SourceEntry::Odd) ==> (s.step(
            event,
        ).0 matches SeedStep::Failed(why) && why is InvalidData),
        event matches SeedEvent::SourceIs(SourceEntry::Unreadable(cause)) ==> s.step(event).0
            == SeedStep::Failed(SeedFault::Other(cause@)),
        event matches SeedEvent::Copied(Err(cause)) ==> s.step(event).0 == SeedStep::Failed(
            SeedFault::Other(cause@),
        ),
{
}

/// A file is copied as a file and a link as a link.
pub proof fn law_files_and_links_are_copied_as_such(s: SeedState)
    ensures
        s.step(SeedEvent::SourceIs(SourceEntry::File)) == (
            SeedStep::CopyFile(s.required[s.next as int]@),
            s,
        ),
        s.step(SeedEvent::SourceIs(SourceEntry::Link)) == (
            SeedStep::CopyLink(s.required[s.next as int]@),
            s,
        ),
{
}

proof fn lemma_foreign(names: Seq<String>, required: Seq<String>, k: nat, n: Seq<char>)
    requires
        k <= names.len(),
    ensures
        foreign_names(names, required, k).contains(n) <==> is_foreign(n, required) && exists|i: int|
            0 <= i < k && (#[trigger] names[i])@ == n,
    decreases k,
{
    let all = foreign_names(names, required, k);
    if k > 0 {
        lemma_foreign(names, required, (k - 1) as nat, n);
        let before = foreign_names(names, required, (k - 1) as nat);
        let last = names[k - 1]@;
        if all.contains(n) && !before.contains(n) {
            let i = choose|i: int| 0 <= i < all.len() && all[i] == n;
            if i < before.len() {
                assert(before[i] == n);
            }
            assert(last == n);
        }
        if before.contains(n) {
            let i = choose|i: int| 0 <= i < before.len() && before[i] == n;
            assert(all[i] == n);
        }
        if is_foreign(n, required) && last == n {
            assert(all[all.len() - 1] == n);
        }
        if exists|i: int| 0 <= i < k && (#[trigger] names[i])@ == n {
            let i = choose|i: int| 0 <= i < k && (#[trigger] names[i])@ == n;
            if i < k - 1 {
                assert(names[i]@ == n);
            }
        }
    }
}

/// What is reported as foreign at the end is exactly what the active bank holds that is
/// neither a declared file, nor a directory on the way to one, nor the bank's own
/// manifest or signature; and what is reported as copied is what was copied.
pub proof fn law_what_is_left_alone_is_reported(s: SeedState, names: Vec<String>, n: Seq<char>)
    requires
        !n.contains('/'),
    ensures
        s.step(SeedEvent::Listed(names)).0 matches SeedStep::Done { copied, foreign } && copied
            == s.copied && (foreign.contains(n) <==> {
            &&& exists|i: int| 0 <= i < names@.len() && (#[trigger] names@[i])@ == n
            &&& n != "ivd-manifest.cbor"@
            &&& n != "ivd-signature.bin"@
            &&& forall|i: int|
                0 <= i < s.required.len() ==> (#[trigger] s.required[i])@ != n && !(n
                    + seq!['/']).is_prefix_of(s.required[i]@)
        }),
{
    lemma_foreign(names@, s.required, names@.len(), n);
    let foreign = foreign_names(names@, s.required, names@.len());
    assert forall|i: int| 0 <= i < s.required.len() implies (first_part(
        (#[trigger] s.required[i])@,
    ) == n <==> s.required[i]@ == n || (n + seq!['/']).is_prefix_of(s.required[i]@)) by {
        let path = s.required[i]@;
        if path.contains('/') {
            let some = choose|at: int| 0 <= at < path.len() && path[at] == '/';
            let at = lemma_first_slash(path, some);
            crate::text::lemma_cut(path, '/', at);
            assert(first_part(path) == path.take(at));
            if path.take(at) == n {
                assert((n + seq!['/']) =~= path.take(at + 1));
            }
            if (n + seq!['/']).is_prefix_of(path) {
                assert((n + seq!['/']) =~= path.take(n.len() as int + 1));
                assert(path[n.len() as int] == '/') by {
                    assert((n + seq!['/'])[n.len() as int] == '/');
                }
                assert forall|j: int| 0 <= j < n.len() implies path[j] != '/' by {
                    assert((n + seq!['/'])[j] == n[j]);
                    assert(n.contains(n[j]));
                }
                assert(at == n.len()) by {
                    if n.len() < at {
                        assert(path.take(at)[n.len() as int] == '/');
                    }
                }
                assert(path.take(at) =~= n);
            }
            if path == n {
                assert(false);
            }
        } else {
            if (n + seq!['/']).is_prefix_of(path) {
                assert((n + seq!['/'])[n.len() as int] == '/');
                assert(path[n.len() as int] == '/');
            }
        }
    }
    if claimed(n, s.required) {
        let i = choose|i: int|
            0 <= i < s.required.len() && first_part((#[trigger] s.required[i])@) == n;
        assert(s.required[i]@ == n || (n + seq!['/']).is_prefix_of(s.required[i]@));
    }
}

proof fn lemma_first_slash(path: Seq<char>, some: int) -> (at: int)
    requires
        0 <= some < path.len(),
        path[some] == '/',
    ensures
        crate::text::first_char_at(path, '/', at),
    decreases some,
{
    if path.take(some).contains('/') {
        let i = choose|i: int| 0 <= i < some && path.take(some)[i] == '/';
        lemma_first_slash(path, i)
    } else {
        some
    }
}

} // verus!
