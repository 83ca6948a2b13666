//! Components whose payload was never pushed.
//!
//! A manifest may come without the payloads of some components: the vehicle has
//! them already, or is to fetch them itself. Each is copied from the active bank
//! where that holds what the manifest promises, else fetched where there is a
//! source and the manifest gives an address; else the update fails.

use crate::backend::setup::ComponentBackend;
use crate::backend::upload::{
    component_digest, component_file, component_uri, digest_of, file_of, uri_of,
};
use crate::bank_seed::{broken_copy, copy_forward_file, missing_copy, stale_text, Streamed};
use crate::banks::{Bank, NvView};
use crate::error::{refused, BackendError, BackendFault};
use crate::firmware::{files_view, FileView, IvdFile, SuitManifest};
use crate::hashing::{promise_broken, promise_broken_text, FileHash};
use crate::logs::entry::text_option;
use crate::outside::sha256;
use crate::text::{cat2, cat4, cat5, decimal, decimal_text};
use vstd::prelude::*;

verus! {

/// The components of a manifest that are still to be brought in.
#[derive(Debug, Clone)]
pub struct Reconcile {
    pub manifest: SuitManifest,
    /// The first component that was not pushed.
    pub first: usize,
    /// The component that is to be brought in next.
    pub next: usize,
    pub total: usize,
    pub active: Bank,
    pub target: Bank,
    /// There is a source to fetch from.
    pub has_source: bool,
    /// What was brought in.
    pub done: Vec<IvdFile>,
}

/// What is to be done to bring a component in.
#[derive(Debug, Clone)]
pub enum ReconcileAction {
    /// A file is to be copied from the active bank if it has the digest.
    CopyForward { component: usize, name: String, expected: Vec<u8> },
    /// A file is to be fetched from an address.
    Fetch { component: usize, name: String, uri: String, expected: Vec<u8> },
    /// Everything is there.
    Finished,
}

/// How fetching a component fails.
#[derive(Debug, Clone)]
pub enum FetchFault {
    /// The source could not be reached.
    Puller(String),
    /// The size of the payload could not be learned.
    BlobSize(String),
    /// There was no room for what comes in.
    TmpDir(String),
    /// The file in the target bank could not be opened.
    Writer(String),
    /// The payload did not come, or was not what was promised.
    Fetch(BackendError),
}

impl Reconcile {
    /// What was brought in are the files of the components up to the next one, in
    /// their order, and each has the digest that the manifest gives for it.
    pub open spec fn wf(self) -> bool {
        &&& self.first <= self.next <= self.total
        &&& self.active != self.target
        &&& self.done@.len() == self.next - self.first
        &&& forall|k: int|
            0 <= k < self.done@.len() ==> (#[trigger] self.done@[k]).relative_path@ == file_of(
                self.manifest,
                (self.first + k) as nat,
            )
        &&& forall|k: int|
            0 <= k < self.done@.len() ==> digest_of(self.manifest, (self.first + k) as nat) == Some(
                (#[trigger] self.done@[k]).sha256@,
            )
    }

    /// Everything was brought in that this was asked for: the components from
    /// `first` on, up to `total`.
    pub open spec fn complete(self, first: nat, total: nat) -> bool {
        &&& self.wf()
        &&& self.first == first
        &&& self.total == total
        &&& self.next == self.total
    }

    /// What was asked for at the start has not changed.
    pub open spec fn same_task(self, other: Reconcile) -> bool {
        &&& self.manifest == other.manifest
        &&& self.first == other.first
        &&& self.total == other.total
        &&& self.active == other.active
        &&& self.target == other.target
        &&& self.has_source == other.has_source
    }

    /// What is to be done for the next component.
    pub fn next_action(&self) -> (r: Result<ReconcileAction, BackendError>)
        requires
            self.wf(),
        ensures
            self.asks_for_next(r),
    {
        if self.next == self.total {
            return Ok(ReconcileAction::Finished);
        }
        match component_digest(&self.manifest, self.next) {
            None => Err(
                BackendError::Internal(
                    cat2(
                        "reconcile: manifest has no image_digest for component ",
                        decimal(self.next as u64).as_str(),
                    ),
                ),
            ),
            Some(expected) => Ok(
                ReconcileAction::CopyForward {
                    component: self.next,
                    name: component_file(&self.manifest, self.next),
                    expected,
                },
            ),
        }
    }

    fn brought_in(&mut self, sha256: &[u8; 32], size: u64)
        requires
            old(self).wf(),
            old(self).next < old(self).total,
            digest_of(old(self).manifest, old(self).next as nat) == Some(sha256@),
        ensures
            final(self).wf(),
            final(self).same_task(*old(self)),
            final(self).next == old(self).next + 1,
            files_view(final(self).done@) == files_view(old(self).done@).push(
                FileView {
                    path: file_of(old(self).manifest, old(self).next as nat),
                    sha256: sha256@,
                    size,
                },
            ),
    {
        let name = component_file(&self.manifest, self.next);
        let file = IvdFile {
            relative_path: name,
            sha256: vstd::slice::slice_to_vec(sha256.as_slice()),
            size,
        };
        let ghost before = self.done@;
        let ghost seen = file@;
        self.done.push(file);
        self.next = self.next + 1;
        assert(files_view(self.done@) =~= files_view(before).push(seen));
    }

    /// The address of the next component, where the manifest gives one.
    pub fn next_uri(&self) -> (r: Option<String>)
        ensures
            text_option(r) == uri_of(self.manifest, self.next as nat),
    {
        component_uri(&self.manifest, self.next)
    }

    /// Takes what came of copying the next component from the active bank. It stays
    /// only if it is what the manifest promises; a copy of something else is to be
    /// removed, which the second part of the answer says. What could not be copied
    /// is to be fetched, if there is a source and the manifest gives an address for
    /// it that names its content (`addressed`); else the update fails.
    pub fn copied(&mut self, streamed: Streamed, addressed: bool) -> (r: (
        Result<ReconcileAction, BackendError>,
        bool,
    ))
        requires
            old(self).wf(),
            old(self).next < old(self).total,
        ensures
            final(self).wf(),
            final(self).same_task(*old(self)),
            copy_settled(*old(self), *final(self), streamed, addressed, r),
    {
        let expected = match component_digest(&self.manifest, self.next) {
            Some(d) => d,
            None => {
                return (self.next_action(), false);
            },
        };
        let name = component_file(&self.manifest, self.next);
        let whole = match &streamed {
            Streamed::Whole(_) => true,
            _ => false,
        };
        match copy_forward_file(name.as_str(), &expected, streamed) {
            Ok(f) => {
                self.brought_in(&f.0, f.1);
                (self.next_action(), false)
            },
            Err(e) => {
                let why = e.to_text();
                if self.has_source && addressed {
                    if let Some(uri) = self.next_uri() {
                        return (
                            Ok(
                                ReconcileAction::Fetch {
                                    component: self.next,
                                    name,
                                    uri,
                                    expected,
                                },
                            ),
                            whole,
                        );
                    }
                }
                (
                    Err(
                        BackendError::Internal(
                            cat5(
                                "reconcile refused for component ",
                                decimal(self.next as u64).as_str(),
                                ": ",
                                why.as_str(),
                                "; no fetch source / content-addressed uri to fall back to",
                            ),
                        ),
                    ),
                    whole,
                )
            },
        }
    }

    /// What could not be copied is fetched where it can be, else the update fails.
    pub open spec fn falls_back(
        self,
        addressed: bool,
        promised: Seq<u8>,
        why: Seq<char>,
        r: Result<ReconcileAction, BackendError>,
    ) -> bool {
        match (self.has_source && addressed, uri_of(self.manifest, self.next as nat)) {
            (true, Some(uri)) => match r {
                Ok(ReconcileAction::Fetch { component, name, uri: u, expected }) => component
                    == self.next && name@ == file_of(self.manifest, self.next as nat) && u@ == uri
                    && expected@ == promised,
                _ => false,
            },
            _ => refused(
                r,
                BackendFault::Internal(reconcile_refusal(self.next as nat, why)),
            ),
        }
    }

    /// What is asked for now is the next component.
    pub open spec fn asks_for_next(self, r: Result<ReconcileAction, BackendError>) -> bool {
        if self.next == self.total {
            r matches Ok(ReconcileAction::Finished)
        } else {
            match digest_of(self.manifest, self.next as nat) {
                None => refused(
                    r,
                    BackendFault::Internal(
                        "reconcile: manifest has no image_digest for component "@ + decimal_text(
                            self.next as nat,
                        ),
                    ),
                ),
                Some(d) => match r {
                    Ok(ReconcileAction::CopyForward { component, name, expected }) => component
                        == self.next && name@ == file_of(self.manifest, self.next as nat)
                        && expected@ == d,
                    _ => false,
                },
            }
        }
    }

    /// Takes what came of fetching the next component. It stays only if it has the
    /// digest that the manifest gives. What a failed fetch left of it in the target
    /// bank, and what turned out to be something else, is to be removed, which the
    /// second part of the answer says.
    pub fn fetched(&mut self, outcome: Result<FileHash, FetchFault>) -> (r: (
        Result<ReconcileAction, BackendError>,
        bool,
    ))
        requires
            old(self).wf(),
            old(self).next < old(self).total,
        ensures
            final(self).wf(),
            final(self).same_task(*old(self)),
            fetch_settled(*old(self), *final(self), outcome, r),
    {
        match outcome {
            Ok(read) => {
                let promised = match component_digest(&self.manifest, self.next) {
                    Some(d) => d,
                    None => {
                        return (self.next_action(), true);
                    },
                };
                match read.finish_as(promised.as_slice()) {
                    Ok(f) => {
                        self.brought_in(&f.0, f.1);
                        (self.next_action(), false)
                    },
                    Err(actual) => {
                        let name = component_file(&self.manifest, self.next);
                        let why = promise_broken_text(name.as_str(), &actual, promised.as_slice());
                        (
                            Err(BackendError::Internal(cat2("reconcile: ", why.as_str()))),
                            true,
                        )
                    },
                }
            },
            Err(fault) => match fault {
                FetchFault::Puller(why) => (
                    Err(BackendError::Internal(cat2("reconcile: build puller: ", why.as_str()))),
                    false,
                ),
                FetchFault::BlobSize(why) => (
                    Err(
                        BackendError::Internal(
                            cat4(
                                "reconcile: blob size for component ",
                                decimal(self.next as u64).as_str(),
                                ": ",
                                why.as_str(),
                            ),
                        ),
                    ),
                    false,
                ),
                FetchFault::TmpDir(why) => (
                    Err(
                        BackendError::Internal(
                            cat2("reconcile: create cas tmp dir: ", why.as_str()),
                        ),
                    ),
                    false,
                ),
                FetchFault::Writer(why) => {
                    let name = component_file(&self.manifest, self.next);
                    (
                        Err(
                            BackendError::Internal(
                                cat4(
                                    "reconcile: open bank writer for ",
                                    name.as_str(),
                                    ": ",
                                    why.as_str(),
                                ),
                            ),
                        ),
                        false,
                    )
                },
                FetchFault::Fetch(e) => (Err(e), true),
            },
        }
    }
}

/// What came of copying the next component from the active bank.
pub open spec fn copy_settled(
    before: Reconcile,
    after: Reconcile,
    streamed: Streamed,
    addressed: bool,
    r: (Result<ReconcileAction, BackendError>, bool),
) -> bool {
    match digest_of(before.manifest, before.next as nat) {
        None => after == before && !r.1 && before.asks_for_next(r.0),
        Some(promised) => match streamed {
            Streamed::Whole(read) => if sha256(read.bytes()) == promised {
                &&& !r.1
                &&& after.next == before.next + 1
                &&& files_view(after.done@) == files_view(before.done@).push(
                    FileView {
                        path: file_of(before.manifest, before.next as nat),
                        sha256: promised,
                        size: read.bytes().len() as u64,
                    },
                )
                &&& after.asks_for_next(r.0)
            } else {
                &&& r.1
                &&& after == before
                &&& before.falls_back(
                    addressed,
                    promised,
                    stale_text(
                        file_of(before.manifest, before.next as nat),
                        sha256(read.bytes()),
                        promised,
                    ),
                    r.0,
                )
            },
            Streamed::Missing(path) => {
                &&& !r.1
                &&& after == before
                &&& before.falls_back(addressed, promised, missing_copy(path@), r.0)
            },
            Streamed::Broken(why, path) => {
                &&& !r.1
                &&& after == before
                &&& before.falls_back(addressed, promised, broken_copy(why@, path@), r.0)
            },
        },
    }
}

/// What came of fetching the next component.
pub open spec fn fetch_settled(
    before: Reconcile,
    after: Reconcile,
    outcome: Result<FileHash, FetchFault>,
    r: (Result<ReconcileAction, BackendError>, bool),
) -> bool {
    match outcome {
        Ok(read) => match digest_of(before.manifest, before.next as nat) {
            None => after == before && r.1 && r.0 is Err && before.asks_for_next(r.0),
            Some(promised) => if sha256(read.bytes()) == promised {
                &&& !r.1
                &&& after.next == before.next + 1
                &&& files_view(after.done@) == files_view(before.done@).push(
                    FileView {
                        path: file_of(before.manifest, before.next as nat),
                        sha256: promised,
                        size: read.bytes().len() as u64,
                    },
                )
                &&& after.asks_for_next(r.0)
            } else {
                &&& r.1
                &&& after == before
                &&& refused(
                    r.0,
                    BackendFault::Internal(
                        "reconcile: "@ + promise_broken(
                            file_of(before.manifest, before.next as nat),
                            sha256(read.bytes()),
                            promised,
                        ),
                    ),
                )
            },
        },
        Err(fault) => {
            &&& after == before
            &&& r.1 == (fault is Fetch)
            &&& refused(
                r.0,
                fetch_failure(
                    fault,
                    before.next as nat,
                    file_of(before.manifest, before.next as nat),
                ),
            )
        },
    }
}

/// What beginning to bring in components came to.
pub open spec fn reconcile_begun(
    b: ComponentBackend,
    nv: NvView,
    next: nat,
    total: nat,
    target: Bank,
    decoded: Result<SuitManifest, String>,
    r: Result<Option<Reconcile>, BackendError>,
) -> bool {
    if next >= total {
        r matches Ok(None)
    } else {
        match b.reconcile_fault(nv, target, decoded) {
            Some(why) => refused(r, why),
            None => match r {
                Ok(Some(c)) => {
                    &&& c.wf()
                    &&& decoded == Ok::<SuitManifest, String>(c.manifest)
                    &&& c.first == next
                    &&& c.next == next
                    &&& c.total == total
                    &&& c.target == target
                    &&& nv.boot matches Some(boot)
                    &&& c.active == boot.active_bank
                    &&& c.has_source == (b.book.install_source is Some)
                    &&& c.done@.len() == 0
                },
                _ => false,
            },
        }
    }
}

/// What an update is refused with when a component can be neither copied nor
/// fetched.
pub open spec fn reconcile_refusal(component: nat, why: Seq<char>) -> Seq<char> {
    "reconcile refused for component "@ + decimal_text(component) + ": "@ + why
        + "; no fetch source / content-addressed uri to fall back to"@
}

/// What a failed fetch is answered with.
pub open spec fn fetch_failure(fault: FetchFault, component: nat, name: Seq<char>) -> BackendFault {
    match fault {
        FetchFault::Puller(why) => BackendFault::Internal("reconcile: build puller: "@ + why@),
        FetchFault::BlobSize(why) => BackendFault::Internal(
            "reconcile: blob size for component "@ + decimal_text(component) + ": "@ + why@,
        ),
        FetchFault::TmpDir(why) => BackendFault::Internal(
            "reconcile: create cas tmp dir: "@ + why@,
        ),
        FetchFault::Writer(why) => BackendFault::Internal(
            "reconcile: open bank writer for "@ + name + ": "@ + why@,
        ),
        FetchFault::Fetch(e) => e@,
    }
}

impl ComponentBackend {
    /// Why the components that were not pushed cannot be brought in, if they
    /// cannot.
    pub open spec fn reconcile_fault(
        self,
        nv: NvView,
        target: Bank,
        decoded: Result<SuitManifest, String>,
    ) -> Option<BackendFault> {
        if self.setup.images_dir is None {
            Some(
                BackendFault::Internal(
                    "manifest-only push needs an images_dir to reconcile the target bank"@,
                ),
            )
        } else {
            match nv.boot {
                None => Some(BackendFault::Internal("no boot state"@)),
                Some(boot) => if boot.active_bank == target {
                    Some(
                        BackendFault::Internal(
                            "copy-forward: target bank == active bank — refusing to self-copy"@,
                        ),
                    )
                } else {
                    match decoded {
                        Err(why) => Some(
                            BackendFault::Internal("reconcile decode manifest: "@ + why@),
                        ),
                        Ok(_) => None,
                    }
                },
            }
        }
    }

    /// Begins to bring in the components from `next` on that were not pushed.
    /// Where there are none there is nothing to do, and `None` comes back.
    pub fn reconcile_unpushed(
        &self,
        nv: &NvView,
        next: usize,
        total: usize,
        target: Bank,
        decoded: Result<SuitManifest, String>,
    ) -> (r: Result<Option<Reconcile>, BackendError>)
        ensures
            reconcile_begun(*self, *nv, next as nat, total as nat, target, decoded, r),
    {
        if next >= total {
            return Ok(None);
        }
        if self.setup.images_dir.is_none() {
            return Err(
                BackendError::Internal(
                    "manifest-only push needs an images_dir to reconcile the target bank".to_owned(),
                ),
            );
        }
        let boot = match nv.boot {
            Some(b) => b,
            None => {
                return Err(BackendError::Internal("no boot state".to_owned()));
            },
        };
        if boot.active_bank == target {
            return Err(
                BackendError::Internal(
                    "copy-forward: target bank == active bank — refusing to self-copy".to_owned(),
                ),
            );
        }
        match decoded {
            Err(why) => Err(
                BackendError::Internal(cat2("reconcile decode manifest: ", why.as_str())),
            ),
            Ok(manifest) => Ok(
                Some(
                    Reconcile {
                        manifest,
                        first: next,
                        next,
                        total,
                        active: boot.active_bank,
                        target,
                        has_source: self.book.install_source.is_some(),
                        done: Vec::new(),
                    },
                ),
            ),
        }
    }
}

/// When everything was brought in, the inventory names the files of exactly the
/// components that were not pushed, each once and in their order, and each with
/// the digest that the manifest gives for it.
pub proof fn law_reconciled_is_complete(c: Reconcile, k: int)
    requires
        c.wf(),
        c.next == c.total,
        0 <= k < c.total - c.first,
    ensures
        files_view(c.done@).len() == c.total - c.first,
        files_view(c.done@)[k].path == file_of(c.manifest, (c.first + k) as nat),
        digest_of(c.manifest, (c.first + k) as nat) == Some(files_view(c.done@)[k].sha256),
{
    assert(files_view(c.done@)[k] == c.done@[k]@);
}

/// A component is never copied from the bank that it is copied to.
pub proof fn law_never_copies_onto_itself(c: Reconcile)
    requires
        c.wf(),
    ensures
        c.active.sibling() == c.target,
{
}

/// Components are brought in exactly where some were not pushed, the banks are on disk,
/// the target bank is not the one that boots, and the manifest can be read. It then
/// begins with the first that was not pushed, and copies from the bank that boots.
pub proof fn law_what_was_not_pushed_is_brought_in(
    b: ComponentBackend,
    nv: NvView,
    next: nat,
    total: nat,
    target: Bank,
    decoded: Result<SuitManifest, String>,
    r: Result<Option<Reconcile>, BackendError>,
)
    requires
        reconcile_begun(b, nv, next, total, target, decoded, r),
    ensures
        (r matches Ok(None)) <==> next >= total,
        r is Err <==> next < total && !{
            &&& b.setup.images_dir is Some
            &&& nv.boot matches Some(boot)
            &&& boot.active_bank != target
            &&& decoded is Ok
        },
        r matches Ok(Some(c)) ==> {
            &&& c.next == next
            &&& c.total == total
            &&& c.done@.len() == 0
            &&& c.target == target
            &&& c.active == nv.boot->0.active_bank
            &&& c.active != c.target
            &&& c.manifest == decoded->Ok_0
            &&& c.has_source <==> b.book.install_source is Some
        },
{
}

/// While a component is missing the next one is to be copied, against the digest that the
/// manifest gives it, and without a digest it fails; it is finished exactly when none is
/// missing.
pub proof fn law_the_next_missing_component_is_asked_for(
    c: Reconcile,
    r: Result<ReconcileAction, BackendError>,
)
    requires
        c.asks_for_next(r),
    ensures
        (r matches Ok(ReconcileAction::Finished)) <==> c.next == c.total,
        !(r matches Ok(ReconcileAction::Fetch { component, name, uri, expected })),
        c.next != c.total ==> {
            let at = c.next as int;
            let known = at < c.manifest.components@.len() && c.manifest.components@[at].digest
                is Some;
            &&& r is Err <==> !known
            &&& known ==> {
                &&& r matches Ok(ReconcileAction::CopyForward { component, name, expected })
                &&& component == c.next
                &&& name@ == file_of(c.manifest, c.next as nat)
                &&& expected@ == c.manifest.components@[at].digest->0@
            }
        },
{
}

/// A copy stays exactly where it is whole and has the digest that the manifest gives; then
/// the component behind it is asked for. Else nothing counts as brought in: it is fetched
/// where there is a source and an address that names its content, and the update fails
/// where there is not. A copy of something else is removed, and nothing else is.
pub proof fn law_a_copy_counts_only_as_promised(
    before: Reconcile,
    after: Reconcile,
    streamed: Streamed,
    addressed: bool,
    r: (Result<ReconcileAction, BackendError>, bool),
)
    requires
        before.next < before.total,
        before.next < before.manifest.components@.len(),
        before.manifest.components@[before.next as int].digest is Some,
        copy_settled(before, after, streamed, addressed, r),
    ensures
        ({
            let c = before.manifest.components@[before.next as int];
            let right = streamed matches Streamed::Whole(read) && sha256(read.bytes())
                == c.digest->0@;
            &&& right ==> {
                &&& after.next == before.next + 1
                &&& files_view(after.done@).len() == files_view(before.done@).len() + 1
                &&& files_view(after.done@).drop_last() == files_view(before.done@)
                &&& files_view(after.done@).last().path == file_of(
                    before.manifest,
                    before.next as nat,
                )
                &&& files_view(after.done@).last().sha256 == c.digest->0@
                &&& files_view(after.done@).last().size == streamed->Whole_0.bytes().len() as u64
                &&& !r.1
                &&& after.asks_for_next(r.0)
            }
            &&& !right ==> {
                &&& after == before
                &&& r.1 <==> streamed is Whole
                &&& r.0 is Ok <==> before.has_source && addressed && c.uri is Some
                &&& r.0 matches Ok(a) ==> {
                    &&& a matches ReconcileAction::Fetch { component, name, uri, expected }
                    &&& component == before.next
                    &&& name@ == file_of(before.manifest, before.next as nat)
                    &&& uri@ == c.uri->0@
                    &&& expected@ == c.digest->0@
                }
            }
        }),
{
}

/// What was fetched stays exactly where it has the digest that the manifest gives; then
/// the component behind it is asked for. Else nothing counts as brought in and the update
/// fails. What turned out to be something else, or was fetched only in part, is removed.
pub proof fn law_a_fetch_counts_only_as_promised(
    before: Reconcile,
    after: Reconcile,
    outcome: Result<FileHash, FetchFault>,
    r: (Result<ReconcileAction, BackendError>, bool),
)
    requires
        before.next < before.total,
        before.next < before.manifest.components@.len(),
        before.manifest.components@[before.next as int].digest is Some,
        fetch_settled(before, after, outcome, r),
    ensures
        ({
            let c = before.manifest.components@[before.next as int];
            let right = outcome matches Ok(read) && sha256(read.bytes()) == c.digest->0@;
            &&& right ==> {
                &&& after.next == before.next + 1
                &&& files_view(after.done@).drop_last() == files_view(before.done@)
                &&& files_view(after.done@).last().path == file_of(
                    before.manifest,
                    before.next as nat,
                )
                &&& files_view(after.done@).last().sha256 == c.digest->0@
                &&& files_view(after.done@).last().size == outcome->Ok_0.bytes().len() as u64
                &&& !r.1
                &&& after.asks_for_next(r.0)
            }
            &&& !right ==> {
                &&& after == before
                &&& r.0 is Err
                &&& r.1 <==> outcome is Ok || outcome->Err_0 is Fetch
            }
            &&& outcome matches Err(FetchFault::Fetch(e)) ==> (r.0 matches Err(x) && x@ == e@)
        }),
{
}

/// Bringing components in does not change what was asked for; and it is complete exactly
/// when nothing of that is missing.
pub proof fn law_the_task_stays_the_same(a: Reconcile, b: Reconcile, first: nat, total: nat)
    ensures
        a.same_task(b) <==> a.manifest == b.manifest && a.first == b.first && a.total == b.total
            && a.active == b.active && a.target == b.target && a.has_source == b.has_source,
        a.complete(first, total) <==> a.wf() && a.first == first && a.next == total && a.total
            == total,
        a.wf() ==> a.active != a.target && a.done@.len() == a.next - a.first,
{
}

/// Whatever keeps a component from being fetched is a failure of this node, told with its
/// cause at the end; what the fetch itself was refused with is passed on.
pub proof fn law_fetches_fail_with_their_cause(fault: FetchFault, component: nat, name: Seq<char>)
    ensures
        !(fault is Fetch) ==> fetch_failure(fault, component, name) is Internal,
        fault matches FetchFault::Fetch(e) ==> fetch_failure(fault, component, name) == e@,
        fault matches FetchFault::Puller(why) ==> why@.is_suffix_of(
            fetch_failure(fault, component, name)->Internal_0,
        ),
        fault matches FetchFault::BlobSize(why) ==> why@.is_suffix_of(
            fetch_failure(fault, component, name)->Internal_0,
        ),
        fault matches FetchFault::TmpDir(why) ==> why@.is_suffix_of(
            fetch_failure(fault, component, name)->Internal_0,
        ),
        fault matches FetchFault::Writer(why) ==> why@.is_suffix_of(
            fetch_failure(fault, component, name)->Internal_0,
        ),
{
    let told = fetch_failure(fault, component, name);
    match fault {
        FetchFault::Puller(why) => {
            let m = told->Internal_0;
            assert(m.subrange(m.len() - why@.len(), m.len() as int) =~= why@);
        },
        FetchFault::BlobSize(why) => {
            let m = told->Internal_0;
            assert(m.subrange(m.len() - why@.len(), m.len() as int) =~= why@);
        },
        FetchFault::TmpDir(why) => {
            let m = told->Internal_0;
            assert(m.subrange(m.len() - why@.len(), m.len() as int) =~= why@);
        },
        FetchFault::Writer(why) => {
            let m = told->Internal_0;
            assert(m.subrange(m.len() - why@.len(), m.len() as int) =~= why@);
        },
        _ => {},
    }
}

/// A component that the manifest gives no digest for is never brought in: nothing counts
/// as done, what was fetched of it is removed, and the update fails.
pub proof fn law_nothing_is_brought_in_without_a_digest(
    before: Reconcile,
    after: Reconcile,
    streamed: Streamed,
    addressed: bool,
    copied: (Result<ReconcileAction, BackendError>, bool),
    later: Reconcile,
    read: FileHash,
    fetched: (Result<ReconcileAction, BackendError>, bool),
)
    requires
        before.next < before.total,
        digest_of(before.manifest, before.next as nat) is None,
        copy_settled(before, after, streamed, addressed, copied),
        fetch_settled(before, later, Ok(read), fetched),
    ensures
        after == before,
        later == before,
        copied.0 is Err,
        !copied.1,
        fetched.0 is Err,
        fetched.1,
{
}

/// Whatever keeps components from being brought in at all is a failure of this node.
pub proof fn law_reconciling_fails_as_a_failure(
    b: ComponentBackend,
    nv: NvView,
    target: Bank,
    decoded: Result<SuitManifest, String>,
)
    ensures
        b.reconcile_fault(nv, target, decoded) matches Some(why) ==> why is Internal,
        b.reconcile_fault(nv, target, decoded) is None <==> b.setup.images_dir is Some && decoded
            is Ok && nv.boot is Some && nv.boot->0.active_bank != target,
        b.setup.images_dir is Some && nv.boot is Some && nv.boot->0.active_bank == target
            ==> b.reconcile_fault(nv, target, decoded) == Some(
            BackendFault::Internal(
                "copy-forward: target bank == active bank — refusing to self-copy"@,
            ),
        ),
{
}

} // verus!
