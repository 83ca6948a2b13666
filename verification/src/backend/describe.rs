//! What the catalogue of updates says of an uploaded manifest.

use crate::backend::book::{DescribeView, ManifestDescribeMeta};
use crate::backend::setup::ComponentBackend;
use crate::firmware::{SuitComponent, SuitManifest};
use crate::logs::entry::{copy_text, text_option, texts};
use crate::outside::{hex_of, hex_text, utf8_text};
use crate::text::{cat2, cat3, same_text};
use vstd::prelude::*;
use vstd::utf8::*;

verus! {

/// A segment of a component's id as text: itself where it is UTF-8, its
/// hexadecimal digits where it is not.
pub open spec fn segment_text(segment: Seq<u8>) -> Seq<char> {
    if valid_utf8(segment) {
        decode_utf8(segment)
    } else {
        hex_text(segment)
    }
}

/// The id of a component as a path: its segments with slashes between them.
pub open spec fn component_path(segments: Seq<Vec<u8>>) -> Seq<char>
    decreases segments.len(),
{
    if segments.len() == 0 {
        Seq::empty()
    } else if segments.len() == 1 {
        segment_text(segments[0]@)
    } else {
        component_path(segments.drop_last()) + "/"@ + segment_text(segments.last()@)
    }
}

/// The id of a component as a path.
pub fn render_component_path(segments: &[Vec<u8>]) -> (r: String)
    ensures
        r@ == component_path(segments@),
{
    let mut r = String::new();
    let mut i: usize = 0;
    assert(segments@.take(0) =~= Seq::empty());
    while i < segments.len()
        invariant
            i <= segments@.len(),
            r@ == component_path(segments@.take(i as int)),
        decreases segments@.len() - i,
    {
        let text = match utf8_text(segments[i].as_slice()) {
            Some(s) => s,
            None => hex_of(segments[i].as_slice()),
        };
        proof {
            let upto = segments@.take(i as int + 1);
            assert(upto.drop_last() =~= segments@.take(i as int));
            assert(upto.last() == segments@[i as int]);
        }
        if i > 0 {
            r = cat3(r.as_str(), "/", text.as_str());
        } else {
            r = text;
        }
        i += 1;
    }
    assert(segments@.take(i as int) =~= segments@);
    r
}

/// The paths of the components before `n` that have an id that is not empty.
pub open spec fn paths_named(components: Seq<SuitComponent>, n: nat) -> Seq<Seq<char>>
    decreases n,
{
    if n == 0 {
        Seq::empty()
    } else {
        let before = paths_named(components, (n - 1) as nat);
        match components[n - 1].id {
            Some(segments) => if component_path(segments@).len() > 0 {
                before.push(component_path(segments@))
            } else {
                before
            },
            None => before,
        }
    }
}

/// The version that a manifest is catalogued under: its own where it has one that
/// is not empty, else the one that it is displayed with.
pub open spec fn catalogue_version(m: SuitManifest, version_display: Seq<char>) -> Seq<char> {
    match m.version {
        Some(v) => if v@.len() > 0 {
            v@
        } else {
            version_display
        },
        None => version_display,
    }
}

/// The name with the version behind it, where there is one.
pub open spec fn qualified(name: Seq<char>, version: Seq<char>) -> Seq<char> {
    if version.len() > 0 {
        name + " "@ + version
    } else {
        name
    }
}

/// The name of the product, else that of the vendor.
pub open spec fn human_name(m: SuitManifest) -> Option<Seq<char>> {
    match m.model_name {
        Some(n) => Some(n@),
        None => text_option(m.vendor_name),
    }
}

/// What the catalogue says of a manifest.
pub open spec fn described(m: SuitManifest, version_display: Seq<char>) -> DescribeView {
    let version = catalogue_version(m, version_display);
    let paths = paths_named(m.components@, m.components@.len());
    DescribeView {
        update_name: match human_name(m) {
            Some(n) => Some(qualified(n, version)),
            None => if paths.len() > 0 {
                Some(qualified(paths[0], version))
            } else {
                None
            },
        },
        notes: text_option(m.description),
        component_paths: paths,
    }
}

fn qualify(name: &str, version: &str) -> (r: String)
    ensures
        r@ == qualified(name@, version@),
{
    if version.is_empty() {
        name.to_owned()
    } else {
        cat3(name, " ", version)
    }
}

fn named_paths(m: &SuitManifest) -> (r: Vec<String>)
    ensures
        texts(r@) == paths_named(m.components@, m.components@.len()),
{
    let mut r: Vec<String> = Vec::new();
    let mut i: usize = 0;
    assert(texts(r@) =~= paths_named(m.components@, 0));
    while i < m.components.len()
        invariant
            i <= m.components@.len(),
            texts(r@) == paths_named(m.components@, i as nat),
        decreases m.components@.len() - i,
    {
        let ghost before = r@;
        if let Some(segments) = &m.components[i].id {
            let path = render_component_path(segments.as_slice());
            if !path.as_str().is_empty() {
                r.push(path);
                assert(texts(r@) =~= texts(before).push(path@));
            }
        }
        i += 1;
    }
    r
}

/// What the catalogue says of a manifest. A manifest without a name for people is
/// named after the first component that it names.
pub fn extract_describe_meta(m: &SuitManifest, version_display: &str) -> (r: ManifestDescribeMeta)
    ensures
        r@ == described(*m, version_display@),
{
    let own: Option<String> = match &m.version {
        Some(v) => if v.as_str().is_empty() {
            None
        } else {
            Some(v.clone())
        },
        None => None,
    };
    let version = match own {
        Some(v) => v,
        None => version_display.to_owned(),
    };
    let name: Option<String> = match &m.model_name {
        Some(n) => Some(n.clone()),
        None => copy_text(&m.vendor_name),
    };
    let component_paths = named_paths(m);
    let update_name = match name {
        Some(n) => Some(qualify(n.as_str(), version.as_str())),
        None => if component_paths.len() > 0 {
            assert(texts(component_paths@)[0] == component_paths@[0]@);
            Some(qualify(component_paths[0].as_str(), version.as_str()))
        } else {
            None
        },
    };
    ManifestDescribeMeta { update_name, notes: copy_text(&m.description), component_paths }
}

/// One uploaded part of an update, as the catalogue knows it.
#[derive(Debug, Clone)]
pub struct CataloguePart {
    pub part_id: String,
    pub file_id: String,
}

/// What the catalogue says of an update.
#[derive(Debug, Clone)]
pub struct UpdatePackageDescriptor {
    pub update_name: String,
    pub notes: Option<String>,
    pub updated_components: Vec<String>,
    pub affected_components: Vec<String>,
}

/// What the catalogue says of an update.
pub struct DescriptorView {
    pub update_name: Seq<char>,
    pub notes: Option<Seq<char>>,
    pub updated: Seq<Seq<char>>,
    pub affected: Seq<Seq<char>>,
}

impl View for UpdatePackageDescriptor {
    type V = DescriptorView;

    open spec fn view(&self) -> DescriptorView {
        DescriptorView {
            update_name: self.update_name@,
            notes: text_option(self.notes),
            updated: texts(self.updated_components@),
            affected: texts(self.affected_components@),
        }
    }
}

/// The file of the first part that is the manifest.
pub open spec fn manifest_file(parts: Seq<CataloguePart>) -> Option<Seq<char>>
    decreases parts.len(),
{
    if parts.len() == 0 {
        None
    } else if parts[0].part_id@ == "manifest"@ {
        Some(parts[0].file_id@)
    } else {
        manifest_file(parts.drop_first())
    }
}

/// A description with what a manifest adds to it.
pub open spec fn enriched(base: DescriptorView, facts: DescribeView, id: Seq<char>) -> DescriptorView {
    let path = seq!["/vehicle/v1/components/"@ + id];
    DescriptorView {
        update_name: match facts.update_name {
            Some(n) => n,
            None => base.update_name,
        },
        notes: match facts.notes {
            Some(n) => Some(n),
            None => base.notes,
        },
        updated: if facts.component_paths.len() > 0 {
            path
        } else {
            base.updated
        },
        affected: if facts.component_paths.len() > 0 {
            path
        } else {
            base.affected
        },
    }
}

fn find_manifest(parts: &Vec<CataloguePart>) -> (r: Option<usize>)
    ensures
        match r {
            Some(i) => i < parts@.len() && manifest_file(parts@) == Some(
                parts@[i as int].file_id@,
            ),
            None => manifest_file(parts@) is None,
        },
{
    let mut i: usize = 0;
    assert(parts@.skip(0) =~= parts@);
    while i < parts.len()
        invariant
            i <= parts@.len(),
            manifest_file(parts@) == manifest_file(parts@.skip(i as int)),
        decreases parts@.len() - i,
    {
        if same_text(parts[i].part_id.as_str(), "manifest") {
            return Some(i);
        }
        assert(parts@.skip(i as int).drop_first() =~= parts@.skip(i as int + 1));
        i += 1;
    }
    None
}

impl ComponentBackend {
    /// What is remembered of the manifest that was uploaded under an id.
    pub fn manifest_describe_facts(&self, file_id: &str) -> (r: Option<&ManifestDescribeMeta>)
        requires
            self.wf(),
        ensures
            match r {
                Some(m) => self.book@.describe.contains_key(file_id@)
                    && self.book@.describe[file_id@] == m@,
                None => !self.book@.describe.contains_key(file_id@),
            },
    {
        self.book.manifest_describe.get(file_id)
    }

    /// What the catalogue says of an update whose parts were uploaded here.
    pub open spec fn catalogued(self, base: DescriptorView, parts: Seq<CataloguePart>) -> DescriptorView {
        match manifest_file(parts) {
            Some(file) => if self.book@.describe.contains_key(file) {
                enriched(base, self.book@.describe[file], self.setup.id())
            } else {
                base
            },
            None => base,
        }
    }

    /// What the catalogue says of an update: `base` with what the manifest among
    /// its parts adds. An update without a manifest, or with one that is not
    /// remembered, keeps `base`.
    pub fn describe_update_package(
        &self,
        base: UpdatePackageDescriptor,
        parts: &Vec<CataloguePart>,
    ) -> (r: UpdatePackageDescriptor)
        requires
            self.wf(),
        ensures
            r@ == self.catalogued(base@, parts@),
    {
        let at: usize = match find_manifest(parts) {
            Some(i) => i,
            None => {
                return base;
            },
        };
        let facts = match self.manifest_describe_facts(parts[at].file_id.as_str()) {
            Some(f) => f,
            None => {
                return base;
            },
        };
        let mut desc = base;
        if let Some(name) = &facts.update_name {
            desc.update_name = name.clone();
        }
        if let Some(notes) = &facts.notes {
            desc.notes = Some(notes.clone());
        }
        if facts.component_paths.len() > 0 {
            let path = cat2("/vehicle/v1/components/", self.setup.entity_info.id.as_str());
            let mut updated: Vec<String> = Vec::new();
            updated.push(path.clone());
            let mut affected: Vec<String> = Vec::new();
            affected.push(path);
            desc.updated_components = updated;
            desc.affected_components = affected;
        }
        assert(desc@.updated =~= self.catalogued(base@, parts@).updated);
        assert(desc@.affected =~= self.catalogued(base@, parts@).affected);
        desc
    }
}

/// A manifest is catalogued under the name of its product, else that of its vendor, else
/// the path of the first component that it names, and under none where it names nothing;
/// with its own version behind the name, or the one that it is displayed with where it
/// has none. What it says of itself and the components that it names come with it.
pub proof fn law_a_manifest_is_catalogued_by_name(m: SuitManifest, version_display: Seq<char>)
    ensures
        ({
            let d = described(m, version_display);
            let version = if m.version is Some && m.version->0@.len() > 0 {
                m.version->0@
            } else {
                version_display
            };
            let name = if m.model_name is Some {
                Some(m.model_name->0@)
            } else if m.vendor_name is Some {
                Some(m.vendor_name->0@)
            } else if d.component_paths.len() > 0 {
                Some(d.component_paths[0])
            } else {
                None
            };
            &&& d.update_name is Some <==> name is Some
            &&& name matches Some(n) ==> d.update_name == Some(
                if version.len() > 0 {
                    n + " "@ + version
                } else {
                    n
                },
            )
            &&& d.notes is Some <==> m.description is Some
            &&& m.description matches Some(t) ==> d.notes == Some(t@)
        }),
{
}

proof fn lemma_paths_named(components: Seq<SuitComponent>, n: nat, x: Seq<char>)
    requires
        n <= components.len(),
    ensures
        paths_named(components, n).contains(x) <==> exists|i: int|
            0 <= i < n && x.len() > 0 && ((#[trigger] components[i]).id matches Some(s)
                && component_path(s@) == x),
        paths_named(components, n).len() <= n,
    decreases n,
{
    if n > 0 {
        let m = (n - 1) as nat;
        lemma_paths_named(components, m, x);
        let before = paths_named(components, m);
        let now = paths_named(components, n);
        if before.contains(x) {
            let at = choose|at: int| 0 <= at < before.len() && before[at] == x;
            assert(now[at] == x);
        }
        if now.contains(x) {
            let at = choose|at: int| 0 <= at < now.len() && now[at] == x;
            if at < before.len() {
                assert(before[at] == x);
                assert(before.contains(x));
                let i = choose|i: int|
                    0 <= i < m && x.len() > 0 && ((#[trigger] components[i]).id matches Some(s)
                        && component_path(s@) == x);
                assert(0 <= i < n && components[i].id is Some);
            } else {
                assert(components[n - 1].id is Some);
            }
        }
        if exists|i: int|
            0 <= i < n && x.len() > 0 && ((#[trigger] components[i]).id matches Some(s)
                && component_path(s@) == x) {
            let i = choose|i: int|
                0 <= i < n && x.len() > 0 && ((#[trigger] components[i]).id matches Some(s)
                    && component_path(s@) == x);
            if i < m {
                assert(before.contains(x));
            } else {
                assert(now[before.len() as int] == x);
            }
        }
    }
}

/// The components that a manifest is catalogued with are those that have an id which is
/// not empty, and no other.
pub proof fn law_named_components_are_catalogued(m: SuitManifest, version_display: Seq<char>, x: Seq<char>)
    ensures
        described(m, version_display).component_paths.contains(x) <==> exists|i: int|
            0 <= i < m.components@.len() && x.len() > 0 && ((#[trigger] m.components@[i]).id matches
                Some(s) && component_path(s@) == x),
{
    lemma_paths_named(m.components@, m.components@.len(), x);
}

/// A segment of an id that is a text stands for itself, and any other by its digits; a
/// path joins two segments with a slash.
pub proof fn law_paths_join_their_segments(segments: Seq<Vec<u8>>, last: Vec<u8>)
    ensures
        valid_utf8(last@) ==> component_path(seq![last]) == decode_utf8(last@),
        !valid_utf8(last@) ==> component_path(seq![last]) == hex_text(last@),
        segments.len() > 0 ==> component_path(segments.push(last)) == component_path(segments) + "/"@
            + component_path(seq![last]),
        component_path(Seq::empty()).len() == 0,
{
    if segments.len() > 0 {
        assert(segments.push(last).drop_last() =~= segments);
    }
}

proof fn lemma_manifest_file(parts: Seq<CataloguePart>, i: int)
    requires
        0 <= i <= parts.len(),
        forall|j: int| 0 <= j < i ==> (#[trigger] parts[j]).part_id@ != "manifest"@,
        i < parts.len() ==> parts[i].part_id@ == "manifest"@,
    ensures
        manifest_file(parts) == if i < parts.len() {
            Some(parts[i].file_id@)
        } else {
            None
        },
    decreases parts.len(),
{
    if i > 0 {
        assert(parts[0].part_id@ != "manifest"@);
        let rest = parts.drop_first();
        assert forall|j: int| 0 <= j < i - 1 implies (#[trigger] rest[j]).part_id@
            != "manifest"@ by {
            assert(parts[j + 1].part_id@ != "manifest"@);
        }
        lemma_manifest_file(rest, i - 1);
    }
}

/// What the catalogue says of an update is what is remembered of the first manifest among
/// its parts, over what was said before: a name and notes where the manifest has them,
/// and this component where it names any. Without a manifest that is remembered nothing
/// changes.
pub proof fn law_the_catalogue_follows_the_manifest(
    b: ComponentBackend,
    base: DescriptorView,
    parts: Seq<CataloguePart>,
    i: int,
)
    requires
        0 <= i <= parts.len(),
        forall|j: int| 0 <= j < i ==> (#[trigger] parts[j]).part_id@ != "manifest"@,
        i < parts.len() ==> parts[i].part_id@ == "manifest"@,
    ensures
        i == parts.len() || !b.book@.describe.contains_key(parts[i].file_id@) ==> b.catalogued(
            base,
            parts,
        ) == base,
        i < parts.len() && b.book@.describe.contains_key(parts[i].file_id@) ==> {
            let d = b.catalogued(base, parts);
            let facts = b.book@.describe[parts[i].file_id@];
            let here = seq!["/vehicle/v1/components/"@ + b.setup.entity_info.id@];
            &&& facts.update_name matches Some(n) ==> d.update_name == n
            &&& facts.update_name is None ==> d.update_name == base.update_name
            &&& facts.notes is Some ==> d.notes == facts.notes
            &&& facts.notes is None ==> d.notes == base.notes
            &&& facts.component_paths.len() > 0 ==> d.updated == here && d.affected == here
            &&& facts.component_paths.len() == 0 ==> d.updated == base.updated && d.affected
                == base.affected
        },
{
    lemma_manifest_file(parts, i);
}

} // verus!
