//! Installs on a virtual machine that may be for the machine or for a container
//! image on it.
//!
//! Which of the two an install is for shows in its first upload. Until then
//! nothing is started; from then on everything goes the same way.

use crate::bank_seed::same_bytes;
use crate::error::{declined, MachineError, MachineFault};
use crate::firmware::SuitManifest;
use crate::manifest_provider::ManifestError;
use crate::text::cat2;
use vstd::prelude::*;
use vstd::utf8::*;

verus! {

/// The name of a container image in a manifest.
pub const CONTAINER_IMAGE_COMPONENT: &'static str = "container_image";

/// The most bytes that come in one piece.
pub const MAX_CHUNK_SIZE: u64 = 16_777_216;

/// What an install is for.
#[derive(Debug, Clone, Copy, PartialEq, Eq, Structural)]
pub enum InstallTarget {
    Vm,
    ContainerImage,
}

/// The way that an install goes, and its id there.
#[derive(Debug, Clone)]
pub struct ActiveInstall {
    pub target: InstallTarget,
    pub id: String,
}

/// An install that was started.
#[derive(Debug, Clone)]
pub struct FlashSession {
    pub id: String,
    pub max_chunk_size: u64,
}

/// Sends installs on a virtual machine the way that they have to go.
#[derive(Debug, Clone)]
pub struct AppInstallRouterComponent {
    pub vm_id: String,
    pub active_install: Option<ActiveInstall>,
}

/// A manifest is for a container image on the machine: the id of its first
/// component starts with the machine and the name of container images.
pub open spec fn for_container(m: SuitManifest, vm_id: Seq<char>) -> bool {
    &&& m.components@.len() > 0
    &&& m.components@[0].id matches Some(segments)
    &&& segments@.len() >= 2
    &&& segments@[0]@ == encode_utf8(vm_id)
    &&& segments@[1]@ == encode_utf8(CONTAINER_IMAGE_COMPONENT@)
}

/// An upload that could be read as a manifest is for a container image.
pub open spec fn upload_for_container(decoded: Option<SuitManifest>, vm_id: Seq<char>) -> bool {
    match decoded {
        Some(m) => for_container(m, vm_id),
        None => false,
    }
}

/// Whether an upload is for a container image on the machine. What cannot be read
/// as a manifest is not.
pub fn is_container_image_manifest_for_vm(decoded: &Option<SuitManifest>, vm_id: &str) -> (r: bool)
    ensures
        r == upload_for_container(*decoded, vm_id@),
{
    let m = match decoded {
        Some(m) => m,
        None => {
            return false;
        },
    };
    if m.components.len() == 0 {
        return false;
    }
    match &m.components[0].id {
        Some(segments) => segments.len() >= 2 && same_bytes(
            segments[0].as_slice(),
            vm_id.as_bytes(),
        ) && same_bytes(segments[1].as_slice(), CONTAINER_IMAGE_COMPONENT.as_bytes()),
        None => false,
    }
}

/// What taking the next piece of a first upload did.
pub open spec fn upload_collected(
    before: Seq<u8>,
    after: Seq<u8>,
    chunk: Result<Vec<u8>, String>,
    r: Result<(), MachineError>,
) -> bool {
    match chunk {
        Ok(bytes) => r is Ok && after == before + bytes@,
        Err(why) => after == before && declined(
            r,
            MachineFault::Internal("install route read: "@ + why@),
        ),
    }
}

/// Takes the next piece of a first upload.
pub fn collect_first_upload(data: &mut Vec<u8>, chunk: Result<Vec<u8>, String>) -> (r: Result<
    (),
    MachineError,
>)
    ensures
        upload_collected(old(data)@, final(data)@, chunk, r),
{
    match chunk {
        Ok(bytes) => {
            let mut more = bytes;
            data.append(&mut more);
            Ok(())
        },
        Err(why) => Err(MachineError::Internal(cat2("install route read: ", why.as_str()))),
    }
}

/// The answer on what an install is for.
pub open spec fn way_chosen(
    vm_id: Seq<char>,
    decoded: Option<SuitManifest>,
    validated: Result<(), ManifestError>,
    r: Result<InstallTarget, MachineError>,
) -> bool {
    if !upload_for_container(decoded, vm_id) {
        r == Ok::<InstallTarget, MachineError>(InstallTarget::Vm)
    } else {
        match validated {
            Ok(_) => r == Ok::<InstallTarget, MachineError>(InstallTarget::ContainerImage),
            Err(no) => declined(
                r,
                MachineFault::ManifestInvalid("container_image validation: "@ + no.message()),
            ),
        }
    }
}

/// The answer on starting an install, and what becomes of the router.
pub open spec fn install_opened(
    before: AppInstallRouterComponent,
    after: AppInstallRouterComponent,
    authorized: Result<(), MachineError>,
    r: Result<FlashSession, MachineError>,
) -> bool {
    match authorized {
        Err(e) => after == before && r == Err::<FlashSession, MachineError>(e),
        Ok(_) => after.active_install is None && match r {
            Ok(s) => s.id@ == before.vm_id@ + "-install"@ && s.max_chunk_size == MAX_CHUNK_SIZE,
            Err(_) => false,
        },
    }
}

/// The answer on starting an install where it goes, and what becomes of the router.
pub open spec fn way_taken(
    before: AppInstallRouterComponent,
    after: AppInstallRouterComponent,
    target: InstallTarget,
    started: Result<String, MachineError>,
    r: Result<(), MachineError>,
) -> bool {
    match started {
        Ok(id) => r is Ok && match after.active_install {
            Some(a) => a.target == target && a.id@ == id@,
            None => false,
        },
        Err(e) => r == Err::<(), MachineError>(e) && after == before,
    }
}

/// The answer on the way that an install goes.
pub open spec fn way_told(
    router: AppInstallRouterComponent,
    r: Result<&ActiveInstall, MachineError>,
) -> bool {
    match router.active_install {
        Some(a) => r == Ok::<&ActiveInstall, MachineError>(&a),
        None => declined(r, MachineFault::UnknownFlashSession("no active app install route"@)),
    }
}

impl AppInstallRouterComponent {
    /// No install is under way.
    pub fn new(vm_id: String) -> (r: AppInstallRouterComponent)
        ensures
            r.vm_id@ == vm_id@,
            r.active_install is None,
    {
        AppInstallRouterComponent { vm_id, active_install: None }
    }

    /// Starts an install, if the machine lets one start. The way that it goes is
    /// not known yet.
    pub fn start_install(&mut self, authorized: Result<(), MachineError>) -> (r: Result<
        FlashSession,
        MachineError,
    >)
        ensures
            final(self).vm_id@ == old(self).vm_id@,
            install_opened(*old(self), *final(self), authorized, r),
    {
        if let Err(e) = authorized {
            return Err(e);
        }
        self.active_install = None;
        Ok(
            FlashSession {
                id: cat2(self.vm_id.as_str(), "-install"),
                max_chunk_size: MAX_CHUNK_SIZE,
            },
        )
    }

    /// The way that the install goes and its id there.
    pub fn active_component(&self) -> (r: Result<&ActiveInstall, MachineError>)
        ensures
            way_told(*self, r),
    {
        match &self.active_install {
            Some(a) => Ok(a),
            None => Err(
                MachineError::UnknownFlashSession("no active app install route".to_owned()),
            ),
        }
    }

    /// What the install is for, from its first upload. `validated` is what judging
    /// the upload gave, which counts only where it is for a container image.
    pub fn select_component(
        &self,
        decoded: &Option<SuitManifest>,
        validated: Result<(), ManifestError>,
    ) -> (r: Result<InstallTarget, MachineError>)
        ensures
            way_chosen(self.vm_id@, *decoded, validated, r),
    {
        if !is_container_image_manifest_for_vm(decoded, self.vm_id.as_str()) {
            return Ok(InstallTarget::Vm);
        }
        match validated {
            Ok(_) => Ok(InstallTarget::ContainerImage),
            Err(no) => {
                let why = no.to_text();
                Err(
                    MachineError::ManifestInvalid(
                        cat2("container_image validation: ", why.as_str()),
                    ),
                )
            },
        }
    }

    /// Takes what came of starting the install where it goes. One that could not be
    /// started goes nowhere.
    pub fn selected(&mut self, target: InstallTarget, started: Result<String, MachineError>) -> (r:
        Result<(), MachineError>)
        ensures
            final(self).vm_id@ == old(self).vm_id@,
            way_taken(*old(self), *final(self), target, started, r),
    {
        match started {
            Ok(id) => {
                self.active_install = Some(ActiveInstall { target, id });
                Ok(())
            },
            Err(e) => Err(e),
        }
    }
}

/// The first component of a manifest is a container image on the machine: its id starts
/// with the machine's id and `container_image`.
pub open spec fn names_container_image(m: SuitManifest, vm_id: Seq<char>) -> bool {
    &&& m.components@.len() > 0
    &&& m.components@[0].id is Some
    &&& m.components@[0].id->0@.len() >= 2
    &&& m.components@[0].id->0@[0]@ == encode_utf8(vm_id)
    &&& m.components@[0].id->0@[1]@ == encode_utf8("container_image"@)
}

/// An install goes to the container images exactly when its first upload is a manifest
/// whose first component is a container image on this machine, and that was found good;
/// where it was not found good the install is refused. Everything else goes to the
/// machine, whatever was made of it.
pub proof fn law_only_container_images_leave_the_machine(
    vm_id: Seq<char>,
    decoded: Option<SuitManifest>,
    validated: Result<(), ManifestError>,
    r: Result<InstallTarget, MachineError>,
)
    requires
        way_chosen(vm_id, decoded, validated, r),
    ensures
        r == Ok::<InstallTarget, MachineError>(InstallTarget::ContainerImage) <==> decoded is Some
            && names_container_image(decoded->0, vm_id) && validated is Ok,
        r is Err <==> decoded is Some && names_container_image(decoded->0, vm_id) && validated
            is Err,
        r == Ok::<InstallTarget, MachineError>(InstallTarget::Vm) <==> decoded is None
            || !names_container_image(decoded->0, vm_id),
        r matches Err(e) ==> e@ is ManifestInvalid,
{
}

/// An install starts exactly when the machine lets it start. It then has no way yet, and
/// has one as soon as it was started where it goes: that way, under the id it has there.
/// Until then whoever asks is told that there is none.
pub proof fn law_an_install_has_its_way_once_started(
    before: AppInstallRouterComponent,
    open: AppInstallRouterComponent,
    after: AppInstallRouterComponent,
    authorized: Result<(), MachineError>,
    session: Result<FlashSession, MachineError>,
    target: InstallTarget,
    started: Result<String, MachineError>,
    taken: Result<(), MachineError>,
    told_open: Result<&ActiveInstall, MachineError>,
    told: Result<&ActiveInstall, MachineError>,
)
    requires
        install_opened(before, open, authorized, session),
        authorized is Ok,
        way_taken(open, after, target, started, taken),
        way_told(open, told_open),
        way_told(after, told),
    ensures
        session is Ok,
        told_open matches Err(e) && e@ is UnknownFlashSession,
        taken is Ok <==> started is Ok,
        told is Ok <==> started is Ok,
        told matches Ok(way) ==> way.target == target && way.id@ == started->Ok_0@,
        taken matches Err(e) ==> e == started->Err_0,
{
}

/// An install that the machine does not let start changes nothing.
pub proof fn law_a_refused_install_changes_nothing(
    before: AppInstallRouterComponent,
    after: AppInstallRouterComponent,
    authorized: Result<(), MachineError>,
    session: Result<FlashSession, MachineError>,
)
    requires
        install_opened(before, after, authorized, session),
        authorized is Err,
    ensures
        session is Err,
        session->Err_0 == authorized->Err_0,
        after == before,
{
}

/// Of a first upload nothing is lost: two pieces that come one behind the other stand
/// one behind the other, and a piece that could not be read adds nothing.
pub proof fn law_a_first_upload_is_collected(
    before: Seq<u8>,
    between: Seq<u8>,
    after: Seq<u8>,
    first: Result<Vec<u8>, String>,
    second: Result<Vec<u8>, String>,
    r: Result<(), MachineError>,
    s: Result<(), MachineError>,
)
    requires
        upload_collected(before, between, first, r),
        upload_collected(between, after, second, s),
    ensures
        r is Ok <==> first is Ok,
        s is Ok <==> second is Ok,
        first is Ok && second is Ok ==> after == before + (first->Ok_0@ + second->Ok_0@),
        first is Err && second is Err ==> after == before,
        r matches Err(e) ==> e@ is Internal,
{
    if first is Ok && second is Ok {
        assert(after =~= before + (first->Ok_0@ + second->Ok_0@));
    }
}

} // verus!
