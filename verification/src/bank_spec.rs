//! Where the banks of a set live on disk, and what their files are called.

use crate::banks::BankSet;
use crate::outside::{lossy, lossy_text};
use vstd::prelude::*;
use vstd::utf8::*;

verus! {

/// What is particular to one bank set.
#[derive(Debug, Clone)]
pub struct BankSetSpec {
    /// The directory of the set below the directory of images.
    pub dir_name: String,
}

/// The directory of a set, unless the deployment says otherwise.
pub open spec fn well_known_dir(set: BankSet) -> Seq<char> {
    match set {
        BankSet::Hsm => "hsm"@,
        BankSet::Bootloader => "bootloader"@,
        BankSet::Os => "os"@,
        BankSet::Rt => "rt"@,
        BankSet::Vm1 => "vm1"@,
        BankSet::Vm2 => "vm2"@,
        BankSet::Custom(_) => "custom"@,
    }
}

impl BankSetSpec {
    /// The layout of a set, unless the deployment says otherwise.
    pub fn for_well_known(bs: BankSet) -> (r: BankSetSpec)
        ensures
            r.dir_name@ == well_known_dir(bs),
    {
        let dir_name = match bs {
            BankSet::Hsm => "hsm",
            BankSet::Bootloader => "bootloader",
            BankSet::Os => "os",
            BankSet::Rt => "rt",
            BankSet::Vm1 => "vm1",
            BankSet::Vm2 => "vm2",
            BankSet::Custom(_) => "custom",
        };
        BankSetSpec { dir_name: dir_name.to_owned() }
    }
}

/// The name of the file that a component's payload goes to: the last segment of
/// the component's id as it stands, or `firmware` for a component without one.
pub open spec fn payload_name(id: Option<Seq<Vec<u8>>>) -> Seq<char> {
    match id {
        Some(segments) => if segments.len() > 0 {
            lossy_text(segments.last()@)
        } else {
            "firmware"@
        },
        None => "firmware"@,
    }
}

/// The id of a component, as the names of its files depend on it.
pub open spec fn id_view(id: Option<&[Vec<u8>]>) -> Option<Seq<Vec<u8>>> {
    match id {
        Some(segments) => Some(segments@),
        None => None,
    }
}

/// The name of the file that a component's payload goes to. It depends on the
/// component's id alone: where the payload is fetched from does not show in it.
pub fn payload_target_name_for_id(component_id: Option<&[Vec<u8>]>) -> (r: String)
    ensures
        r@ == payload_name(id_view(component_id)),
        id_view(component_id) matches Some(segments) ==> segments.len() > 0 && valid_utf8(
            segments.last()@,
        ) ==> r@ == decode_utf8(segments.last()@),
{
    match component_id {
        Some(segments) => {
            if segments.len() > 0 {
                lossy(segments[segments.len() - 1].as_slice())
            } else {
                "firmware".to_owned()
            }
        },
        None => "firmware".to_owned(),
    }
}

/// Each set that every node has lives in a directory of its own.
pub proof fn law_sets_live_apart(a: BankSet, b: BankSet)
    requires
        well_known_dir(a) == well_known_dir(b),
    ensures
        a == b || (a is Custom && b is Custom),
{
    reveal_strlit("hsm");
    reveal_strlit("bootloader");
    reveal_strlit("os");
    reveal_strlit("rt");
    reveal_strlit("vm1");
    reveal_strlit("vm2");
    reveal_strlit("custom");
    assert("hsm"@.len() == 3 && "vm1"@.len() == 3 && "vm2"@.len() == 3);
    assert("hsm"@[0] == 'h' && "vm1"@[0] == 'v' && "vm1"@[2] == '1' && "vm2"@[0] == 'v');
    assert("vm2"@[2] == '2' && "os"@[0] == 'o' && "rt"@[0] == 'r');
    assert("os"@.len() == 2 && "rt"@.len() == 2 && "bootloader"@.len() == 10);
    assert("custom"@.len() == 6);
}

/// A payload goes to a file that is named after the last segment of its component's id,
/// whatever stands before it; a component without an id has its payload called firmware.
pub proof fn law_payloads_are_named_by_the_last_segment(front: Seq<Vec<u8>>, last: Vec<u8>)
    ensures
        payload_name(Some(front.push(last))) == lossy_text(last@),
        payload_name(None) == "firmware"@,
        payload_name(Some(Seq::empty())) == "firmware"@,
{
}

} // verus!
