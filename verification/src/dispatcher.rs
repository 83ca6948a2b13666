//! Which component a manifest is for.
//!
//! A manifest addresses a component by its name: the first segment of every
//! component id it holds. Names are compared as they stand.

use crate::error::MachineError;
use crate::firmware::{SuitComponent, SuitManifest};
use crate::manifest_provider::ManifestError;
use crate::outside::utf8_text;
use crate::text::{cat3, cat5, decimal, decimal_text, same_text};
use vstd::prelude::*;
use vstd::utf8::*;

verus! {

/// The first segment of a component's id, where it has one.
pub open spec fn first_segment(c: SuitComponent) -> Option<Seq<u8>> {
    match c.id {
        Some(segments) => if segments@.len() > 0 {
            Some(segments@[0]@)
        } else {
            None
        },
        None => None,
    }
}

/// The component of a manifest has a usable name.
pub open spec fn is_named(c: SuitComponent) -> bool {
    first_segment(c) is Some && valid_utf8(first_segment(c)->0)
}

/// The name that a component of a manifest gives.
pub open spec fn name_given(c: SuitComponent) -> Seq<char> {
    decode_utf8(first_segment(c)->0)
}

/// The components of a manifest that come before `n` are all named alike.
pub open spec fn agree_up_to(m: SuitManifest, n: int) -> bool {
    forall|i: int|
        0 <= i < n ==> is_named(#[trigger] m.components@[i]) && name_given(m.components@[i])
            == name_given(m.components@[0])
}

/// Every component of a manifest gives the name, and there is one.
pub open spec fn has_target(m: SuitManifest, name: Seq<char>) -> bool {
    &&& m.components@.len() > 0
    &&& agree_up_to(m, m.components@.len() as int)
    &&& name == name_given(m.components@[0])
}

/// The component at `i` is the first that a manifest is refused for.
pub open spec fn refused_at(m: SuitManifest, i: int, why: Seq<char>) -> bool {
    &&& 0 <= i < m.components@.len()
    &&& agree_up_to(m, i)
    &&& {
        let c = m.components@[i];
        if first_segment(c) is None {
            why == "missing component_id"@
        } else if !valid_utf8(first_segment(c)->0) {
            why == "component "@ + decimal_text(i as nat) + ": id segment is not UTF-8"@
        } else {
            name_given(c) != name_given(m.components@[0]) && why
                == "manifest names two components: '"@ + name_given(m.components@[0]) + "' and '"@
                + name_given(c) + "'"@
        }
    }
}

/// A manifest has no target, and why: it has no component, or its first component
/// without a name, or with another than the first, decides.
pub open spec fn no_target(m: SuitManifest, why: Seq<char>) -> bool {
    (m.components@.len() == 0 && why == "missing component_id"@) || exists|i: int|
        #[trigger] refused_at(m, i, why)
}

/// The answer on which component a manifest is for.
pub open spec fn target_found(m: SuitManifest, r: Result<String, ManifestError>) -> bool {
    match r {
        Ok(name) => has_target(m, name@),
        Err(ManifestError::ComponentUnknown(why)) => no_target(m, why@),
        Err(_) => false,
    }
}

/// The answer on whether an envelope is for a component.
pub open spec fn target_checked(
    decoded: Result<SuitManifest, String>,
    expected: Seq<char>,
    r: Result<(), MachineError>,
) -> bool {
    match r {
        Ok(_) => decoded matches Ok(m) && has_target(m, expected),
        Err(MachineError::WrongTarget(t)) => match decoded {
            Ok(m) => exists|actual: Seq<char>| #[trigger]
                has_target(m, actual) && actual != expected && t@ == "manifest target '"@ + actual
                    + "' != expected '"@ + expected + "'"@,
            Err(_) => false,
        },
        Err(MachineError::ManifestInvalid(t)) => match decoded {
            Ok(m) => exists|why: Seq<char>| #[trigger]
                no_target(m, why) && t@ == "peek failed: "@ + ("unknown component: "@ + why),
            Err(why) => t@ == "peek failed: "@ + ("manifest parse error: "@ + ("decode envelope: "@
                + why@)),
        },
        Err(_) => false,
    }
}

/// The component that a manifest is for. All its entries have to give the same
/// name: nothing can install for two components at once.
pub fn target_component(manifest: &SuitManifest) -> (r: Result<String, ManifestError>)
    ensures
        target_found(*manifest, r),
{
    let n: usize = manifest.components.len();
    let mut target: Option<String> = None;
    let mut i: usize = 0;
    while i < n
        invariant
            n == manifest.components@.len(),
            i <= n,
            agree_up_to(*manifest, i as int),
            i == 0 ==> target is None,
            i > 0 ==> target is Some && target->0@ == name_given(manifest.components@[0]),
        decreases n - i,
    {
        let c = &manifest.components[i];
        let segment: Option<&Vec<u8>> = match &c.id {
            Some(segments) => if segments.len() > 0 {
                Some(&segments[0])
            } else {
                None
            },
            None => None,
        };
        let segment = match segment {
            Some(s) => s,
            None => {
                assert(refused_at(*manifest, i as int, "missing component_id"@));
                return Err(ManifestError::ComponentUnknown("missing component_id".to_owned()));
            },
        };
        let name = match utf8_text(segment.as_slice()) {
            Some(s) => s,
            None => {
                let why = cat3(
                    "component ",
                    decimal(i as u64).as_str(),
                    ": id segment is not UTF-8",
                );
                assert(refused_at(*manifest, i as int, why@));
                return Err(ManifestError::ComponentUnknown(why));
            },
        };
        match &target {
            None => {
                target = Some(name);
            },
            Some(first) => {
                if !same_text(first.as_str(), name.as_str()) {
                    let why = cat5(
                        "manifest names two components: '",
                        first.as_str(),
                        "' and '",
                        name.as_str(),
                        "'",
                    );
                    assert(refused_at(*manifest, i as int, why@));
                    return Err(ManifestError::ComponentUnknown(why));
                }
            },
        }
        i += 1;
    }
    match target {
        Some(t) => Ok(t),
        None => Err(ManifestError::ComponentUnknown("missing component_id".to_owned())),
    }
}

/// The component that an envelope is for, from what decoding it gave. Nothing is
/// said of its signature.
pub fn peek_target_component(decoded: Result<SuitManifest, String>) -> (r: Result<
    String,
    ManifestError,
>)
    ensures
        match decoded {
            Ok(m) => target_found(m, r),
            Err(why) => r matches Err(ManifestError::ParseError(t)) && t@ == "decode envelope: "@
                + why@,
        },
{
    match decoded {
        Ok(m) => target_component(&m),
        Err(why) => Err(
            ManifestError::ParseError(crate::text::cat2("decode envelope: ", why.as_str())),
        ),
    }
}

/// Whether an envelope is for the component that it was sent to: the names have
/// to be the same, letter for letter.
pub fn check_target(decoded: Result<SuitManifest, String>, expected_component_id: &str) -> (r:
    Result<(), MachineError>)
    ensures
        target_checked(decoded, expected_component_id@, r),
{
    let ghost source = decoded;
    match peek_target_component(decoded) {
        Ok(actual) => {
            if same_text(actual.as_str(), expected_component_id) {
                Ok(())
            } else {
                assert(has_target(source->Ok_0, actual@));
                Err(
                    MachineError::WrongTarget(
                        cat5(
                            "manifest target '",
                            actual.as_str(),
                            "' != expected '",
                            expected_component_id,
                            "'",
                        ),
                    ),
                )
            }
        },
        Err(e) => {
            let why = e.to_text();
            proof {
                if source is Ok {
                    assert(no_target(source->Ok_0, e->ComponentUnknown_0@));
                }
            }
            Err(MachineError::ManifestInvalid(crate::text::cat2("peek failed: ", why.as_str())))
        },
    }
}

/// A manifest has at most one target: an envelope that is accepted for one
/// component is refused for every other.
pub proof fn law_one_target(m: SuitManifest, a: Seq<char>, b: Seq<char>)
    requires
        has_target(m, a),
        has_target(m, b),
    ensures
        a == b,
{
}

/// A manifest either has a target or is refused, never both.
pub proof fn law_target_or_refusal(m: SuitManifest, name: Seq<char>, why: Seq<char>)
    requires
        has_target(m, name),
    ensures
        !no_target(m, why),
{
    if no_target(m, why) {
        let i = choose|i: int| #[trigger] refused_at(m, i, why);
        assert(is_named(m.components@[i]));
    }
}

/// The id of a component of a manifest starts with the name.
pub open spec fn starts_with_name(c: SuitComponent, name: Seq<char>) -> bool {
    c.id matches Some(segments) && segments@.len() > 0 && segments@[0]@ == encode_utf8(name)
}

/// A manifest is for a component exactly when it has entries and the id of every one
/// starts with the component's name, byte for byte; an envelope is accepted for a
/// component exactly when it could be read and is for it, and one that is for another
/// is told apart from one that is for none.
pub proof fn law_a_manifest_is_for_the_name_its_ids_start_with(
    decoded: Result<SuitManifest, String>,
    expected: Seq<char>,
    r: Result<(), MachineError>,
)
    requires
        target_checked(decoded, expected, r),
    ensures
        r is Ok <==> (decoded matches Ok(m) && m.components@.len() > 0 && forall|i: int|
            0 <= i < m.components@.len() ==> starts_with_name(#[trigger] m.components@[i], expected)),
        (r matches Err(e) && e is WrongTarget) ==> (decoded matches Ok(m) && m.components@.len() > 0
            && !starts_with_name(m.components@[0], expected)),
        decoded is Err ==> (r matches Err(e) && e is ManifestInvalid),
{
    if let Ok(m) = decoded {
        assert forall|i: int| 0 <= i < m.components@.len() implies (starts_with_name(
            #[trigger] m.components@[i],
            expected,
        ) <==> is_named(m.components@[i]) && name_given(m.components@[i]) == expected) by {
            let c = m.components@[i];
            encode_utf8_decode_utf8(expected);
            encode_utf8_valid_utf8(expected);
            if is_named(c) {
                decode_utf8_encode_utf8(first_segment(c)->0);
            }
        }
        if m.components@.len() > 0 && forall|i: int|
            0 <= i < m.components@.len() ==> starts_with_name(#[trigger] m.components@[i], expected) {
            assert(starts_with_name(m.components@[0], expected));
            assert(has_target(m, expected)) by {
                assert forall|i: int| 0 <= i < m.components@.len() implies is_named(
                    #[trigger] m.components@[i],
                ) && name_given(m.components@[i]) == name_given(m.components@[0]) by {
                    assert(starts_with_name(m.components@[i], expected));
                }
            }
            match r {
                Err(MachineError::WrongTarget(t)) => {
                    let actual = choose|actual: Seq<char>| #[trigger]
                        has_target(m, actual) && actual != expected && t@ == "manifest target '"@
                            + actual + "' != expected '"@ + expected + "'"@;
                    law_one_target(m, actual, expected);
                },
                Err(MachineError::ManifestInvalid(t)) => {
                    let why = choose|why: Seq<char>| #[trigger]
                        no_target(m, why) && t@ == "peek failed: "@ + ("unknown component: "@
                            + why);
                    law_target_or_refusal(m, expected, why);
                },
                _ => {},
            }
        }
        if r is Ok {
            assert forall|i: int| 0 <= i < m.components@.len() implies starts_with_name(
                #[trigger] m.components@[i],
                expected,
            ) by {
                assert(is_named(m.components@[i]));
            }
        }
        if let Err(MachineError::WrongTarget(t)) = r {
            let actual = choose|actual: Seq<char>| #[trigger]
                has_target(m, actual) && actual != expected && t@ == "manifest target '"@ + actual
                    + "' != expected '"@ + expected + "'"@;
            assert(name_given(m.components@[0]) == actual);
            assert(starts_with_name(m.components@[0], expected) ==> actual == expected);
        }
    }
}

/// The component that a manifest is found to be for is the one that all its ids start
/// with, and a manifest that is refused has no such component.
pub proof fn law_the_target_is_what_every_id_starts_with(
    m: SuitManifest,
    r: Result<String, ManifestError>,
    other: Seq<char>,
)
    requires
        target_found(m, r),
    ensures
        r matches Ok(name) ==> m.components@.len() > 0 && forall|i: int|
            0 <= i < m.components@.len() ==> starts_with_name(#[trigger] m.components@[i], name@),
        r is Err && m.components@.len() > 0 ==> exists|i: int|
            0 <= i < m.components@.len() && !starts_with_name(#[trigger] m.components@[i], other),
{
    match r {
        Ok(name) => {
            assert forall|i: int| 0 <= i < m.components@.len() implies starts_with_name(
                #[trigger] m.components@[i],
                name@,
            ) by {
                assert(is_named(m.components@[i]));
                decode_utf8_encode_utf8(first_segment(m.components@[i])->0);
            }
        },
        Err(ManifestError::ComponentUnknown(why)) => {
            if m.components@.len() > 0 && forall|i: int|
                0 <= i < m.components@.len() ==> starts_with_name(#[trigger] m.components@[i], other) {
                assert(has_target(m, other)) by {
                    encode_utf8_decode_utf8(other);
                    encode_utf8_valid_utf8(other);
                    assert(starts_with_name(m.components@[0], other));
                    assert forall|i: int| 0 <= i < m.components@.len() implies is_named(
                        #[trigger] m.components@[i],
                    ) && name_given(m.components@[i]) == name_given(m.components@[0]) by {
                        assert(starts_with_name(m.components@[i], other));
                    }
                }
                law_target_or_refusal(m, other, why@);
            }
        },
        _ => {},
    }
}

} // verus!
