//! What a component is: its identity, its configuration and its fittings.

use crate::backend::book::{blank_book, BookView, FlashBook, InstallSource};
use crate::backend::dids::{DidCache, DidNumbers};
use crate::bank_spec::{well_known_dir, BankSetSpec};
use crate::banks::{bank_at_boot, booted_bank, Bank, BankBootState, BankSet, ResetKind};
use crate::firmware::InstalledFirmware;
use crate::logs::listing::LogSource;
use crate::text::cat2;
use vstd::prelude::*;

verus! {

/// How a component behaves.
#[derive(Debug, Clone)]
pub struct ComponentConfig {
    /// An update can be taken back.
    pub supports_rollback: bool,
    /// There is only bank A.
    pub single_bank: bool,
    pub entity_type: String,
    /// Where the component's logs come from.
    pub log_sources: Vec<LogSource>,
}

impl Default for ComponentConfig {
    /// A component with two banks that can roll back and serves no logs.
    fn default() -> (c: ComponentConfig)
        ensures
            c.supports_rollback,
            !c.single_bank,
            c.entity_type@ == "vm"@,
            c.log_sources@.len() == 0,
    {
        ComponentConfig {
            supports_rollback: true,
            single_bank: false,
            entity_type: "vm".to_owned(),
            log_sources: Vec::new(),
        }
    }
}

/// How a component presents itself.
#[derive(Debug, Clone)]
pub struct EntityInfo {
    pub id: String,
    pub name: String,
    pub entity_type: String,
    pub description: Option<String>,
    pub href: String,
    pub status: Option<String>,
}

/// What can be asked of a component.
#[derive(Debug, Clone, Copy, PartialEq, Eq, Structural)]
pub struct Capabilities {
    pub read_data: bool,
    pub write_data: bool,
    pub faults: bool,
    pub clear_faults: bool,
    pub software_update: bool,
    pub io_control: bool,
    pub sessions: bool,
    pub security: bool,
    pub sub_entities: bool,
    pub subscriptions: bool,
    pub logs: bool,
    pub operations: bool,
}

/// What can be asked of a component that was just made.
pub open spec fn first_capabilities(logs: bool) -> Capabilities {
    Capabilities {
        read_data: true,
        write_data: true,
        faults: true,
        clear_faults: true,
        software_update: true,
        io_control: false,
        sessions: false,
        security: false,
        sub_entities: false,
        subscriptions: false,
        logs,
        operations: false,
    }
}

/// What a component is fitted with.
#[derive(Debug, Clone, Copy, PartialEq, Eq, Structural)]
pub struct Fittings {
    /// A security module is attached.
    pub hsm: bool,
    /// The cryptographic services of the security module are attached.
    pub hsm_crypto: bool,
    /// Something other than the service for virtual machines tells the health.
    pub health_probe: bool,
    /// The node has a coordinator of updates.
    pub coordinator: bool,
    /// Something runs when a bank is activated.
    pub activator: bool,
    /// The banks are looked after by a provider that was put in from outside.
    pub provider_override: bool,
    /// The component can be stopped for good, and so be disabled.
    pub deactivator: bool,
    /// Something reloads the security module after its keys were written.
    pub reload: bool,
    /// Something sets the clock of the host forward.
    pub wall_clock: bool,
}

/// A component without fittings, with or without a security module.
pub open spec fn bare_fittings(hsm: bool) -> Fittings {
    Fittings {
        hsm,
        hsm_crypto: false,
        health_probe: false,
        coordinator: false,
        activator: false,
        provider_override: false,
        deactivator: false,
        reload: false,
        wall_clock: false,
    }
}

/// What a component is made of. It does not change once the component is made.
#[derive(Debug, Clone)]
pub struct ComponentSetup {
    pub entity_info: EntityInfo,
    pub capabilities: Capabilities,
    pub bank_set: BankSet,
    pub bank_spec: BankSetSpec,
    pub config: ComponentConfig,
    /// Where the service for virtual machines listens.
    pub vm_service_addr: Option<String>,
    /// The directory that holds the banks.
    pub images_dir: Option<String>,
    pub fittings: Fittings,
    pub did_numbers: DidNumbers,
}

impl ComponentSetup {
    /// The id of the component.
    pub open spec fn id(self) -> Seq<char> {
        self.entity_info.id@
    }
}

/// The engine of one component.
#[derive(Debug, Clone)]
pub struct ComponentBackend {
    pub setup: ComponentSetup,
    /// The bank that the component runs from.
    pub running_bank: Bank,
    /// What is remembered of an update.
    pub book: FlashBook,
    /// The values that are served without asking the non-volatile store.
    pub did_cache: DidCache,
    /// The installed firmware of a bank, as last read.
    pub manifest_cache: Option<(Bank, InstalledFirmware)>,
}

/// The id of the component of a bank set.
pub open spec fn set_id(set: BankSet) -> Seq<char> {
    match set {
        BankSet::Hsm => "hsm"@,
        BankSet::Bootloader => "bootloader"@,
        BankSet::Os => "host-os"@,
        BankSet::Rt => "rt"@,
        BankSet::Vm1 => "vm1"@,
        BankSet::Vm2 => "vm2"@,
        BankSet::Custom(_) => "custom"@,
    }
}

/// The name of the component of a bank set.
pub open spec fn set_name(set: BankSet) -> Seq<char> {
    match set {
        BankSet::Hsm => "HSM Key Store"@,
        BankSet::Bootloader => "Bootloader"@,
        BankSet::Os => "Host OS"@,
        BankSet::Rt => "Realtime"@,
        BankSet::Vm1 => "VM1"@,
        BankSet::Vm2 => "VM2"@,
        BankSet::Custom(_) => "Custom"@,
    }
}

/// The description of the component of a bank set.
pub open spec fn set_description(set: BankSet) -> Seq<char> {
    match set {
        BankSet::Hsm => "Hardware Security Module"@,
        BankSet::Bootloader => "Reserved bootloader bank set"@,
        BankSet::Os =>
        "Host OS (IFS + rootfs) A/B bank set; carries the self-updating app slot"@,
        BankSet::Rt => "Realtime / Cortex-M7 core bank set"@,
        BankSet::Vm1 => "Virtual machine slot 1"@,
        BankSet::Vm2 => "Virtual machine slot 2"@,
        BankSet::Custom(_) => "Deployment-specific bank slot"@,
    }
}

fn set_words(set: BankSet) -> (r: (&'static str, &'static str, &'static str))
    ensures
        r.0@ == set_id(set),
        r.1@ == set_name(set),
        r.2@ == set_description(set),
{
    match set {
        BankSet::Hsm => ("hsm", "HSM Key Store", "Hardware Security Module"),
        BankSet::Bootloader => ("bootloader", "Bootloader", "Reserved bootloader bank set"),
        BankSet::Os => (
            "host-os",
            "Host OS",
            "Host OS (IFS + rootfs) A/B bank set; carries the self-updating app slot",
        ),
        BankSet::Rt => ("rt", "Realtime", "Realtime / Cortex-M7 core bank set"),
        BankSet::Vm1 => ("vm1", "VM1", "Virtual machine slot 1"),
        BankSet::Vm2 => ("vm2", "VM2", "Virtual machine slot 2"),
        BankSet::Custom(_) => ("custom", "Custom", "Deployment-specific bank slot"),
    }
}

/// A component that was just made out of its configuration.
pub open spec fn just_made(
    b: ComponentBackend,
    set: BankSet,
    boot: Option<BankBootState>,
    config: ComponentConfig,
    vm_service_addr: Option<String>,
    images_dir: Option<String>,
    hsm: bool,
    numbers: DidNumbers,
) -> bool {
    &&& b.setup.entity_info.id@ == set_id(set)
    &&& b.setup.entity_info.name@ == set_name(set)
    &&& b.setup.entity_info.entity_type@ == config.entity_type@
    &&& b.setup.entity_info.description matches Some(d)
    &&& d@ == set_description(set)
    &&& b.setup.entity_info.href@ == "/vehicle/v1/components/"@ + set_id(set)
    &&& b.setup.entity_info.status is None
    &&& b.setup.capabilities == first_capabilities(config.log_sources@.len() > 0)
    &&& b.setup.bank_set == set
    &&& b.setup.bank_spec.dir_name@ == well_known_dir(set)
    &&& b.setup.config == config
    &&& b.setup.vm_service_addr == vm_service_addr
    &&& b.setup.images_dir == images_dir
    &&& b.setup.fittings == bare_fittings(hsm)
    &&& b.setup.did_numbers == numbers
    &&& b.running_bank == booted_bank(config.single_bank, boot)
    &&& b.book@ == blank_book()
    &&& b.did_cache@ == crate::backend::dids::no_dids()
    &&& b.manifest_cache is None
    &&& b.wf()
}

/// The node's coordinator of updates was attached.
pub open spec fn coordinator_attached(before: ComponentBackend, after: ComponentBackend) -> bool {
    after == before.refitted(Fittings { coordinator: true, ..before.setup.fittings })
}

/// What reloads the security module was attached.
pub open spec fn reload_attached(before: ComponentBackend, after: ComponentBackend) -> bool {
    after == before.refitted(Fittings { reload: true, ..before.setup.fittings })
}

/// The cryptographic services of the security module were attached.
pub open spec fn hsm_crypto_attached(before: ComponentBackend, after: ComponentBackend) -> bool {
    after == before.refitted(Fittings { hsm_crypto: true, ..before.setup.fittings })
}

/// What sets the clock of the host forward was attached.
pub open spec fn wall_clock_attached(before: ComponentBackend, after: ComponentBackend) -> bool {
    after == before.refitted(Fittings { wall_clock: true, ..before.setup.fittings })
}

/// What runs when a bank is activated was attached.
pub open spec fn activator_attached(before: ComponentBackend, after: ComponentBackend) -> bool {
    after == before.refitted(Fittings { activator: true, ..before.setup.fittings })
}

/// Another provider of banks was put in.
pub open spec fn provider_override_attached(before: ComponentBackend, after: ComponentBackend) -> bool {
    after == before.refitted(Fittings { provider_override: true, ..before.setup.fittings })
}

/// A source of health was attached.
pub open spec fn health_probe_attached(before: ComponentBackend, after: ComponentBackend) -> bool {
    after == before.refitted(Fittings { health_probe: true, ..before.setup.fittings })
}

/// What stops the component for good was attached.
pub open spec fn deactivator_attached(before: ComponentBackend, after: ComponentBackend) -> bool {
    &&& after == (ComponentBackend { setup: after.setup, ..before })
    &&& after.setup == (ComponentSetup {
        capabilities: after.setup.capabilities,
        fittings: after.setup.fittings,
        ..before.setup
    })
    &&& after.setup.capabilities == (Capabilities {
        operations: true,
        ..before.setup.capabilities
    })
    &&& after.setup.fittings == (Fittings { deactivator: true, ..before.setup.fittings })
}

/// The book says where the next update pulls its payloads from.
pub open spec fn source_set(before: BookView, after: BookView, source: InstallSource) -> bool {
    after == (BookView { source: Some(source), ..before })
}

impl ComponentBackend {
    /// The book is in order.
    pub open spec fn wf(self) -> bool {
        self.book.wf()
    }

    /// A component without a service for virtual machines, banks on disk or
    /// security module. `boot` is what the non-volatile store says of its set.
    pub fn new(
        bank_set: BankSet,
        boot: Option<BankBootState>,
        config: ComponentConfig,
        did_numbers: DidNumbers,
    ) -> (b: ComponentBackend)
        ensures
            just_made(b, bank_set, boot, config, None, None, false, did_numbers),
    {
        ComponentBackend::with_options(bank_set, boot, config, None, None, false, did_numbers)
    }

    /// A component that a service for virtual machines runs.
    pub fn with_vm_service(
        bank_set: BankSet,
        boot: Option<BankBootState>,
        config: ComponentConfig,
        vm_service_addr: Option<String>,
        did_numbers: DidNumbers,
    ) -> (b: ComponentBackend)
        ensures
            just_made(b, bank_set, boot, config, vm_service_addr, None, false, did_numbers),
    {
        ComponentBackend::with_options(
            bank_set,
            boot,
            config,
            vm_service_addr,
            None,
            false,
            did_numbers,
        )
    }

    /// A component. It runs from the bank that the non-volatile store says it
    /// booted; its values are to be read with `refresh_did_cache` before they are
    /// served.
    pub fn with_options(
        bank_set: BankSet,
        boot: Option<BankBootState>,
        config: ComponentConfig,
        vm_service_addr: Option<String>,
        images_dir: Option<String>,
        hsm: bool,
        did_numbers: DidNumbers,
    ) -> (b: ComponentBackend)
        ensures
            just_made(
                b,
                bank_set,
                boot,
                config,
                vm_service_addr,
                images_dir,
                hsm,
                did_numbers,
            ),
    {
        let words = set_words(bank_set);
        let running_bank = bank_at_boot(config.single_bank, &boot);
        let entity_info = EntityInfo {
            id: words.0.to_owned(),
            name: words.1.to_owned(),
            entity_type: config.entity_type.clone(),
            description: Some(words.2.to_owned()),
            href: cat2("/vehicle/v1/components/", words.0),
            status: None,
        };
        let capabilities = Capabilities {
            read_data: true,
            write_data: true,
            faults: true,
            clear_faults: true,
            software_update: true,
            io_control: false,
            sessions: false,
            security: false,
            sub_entities: false,
            subscriptions: false,
            logs: config.log_sources.len() > 0,
            operations: false,
        };
        let setup = ComponentSetup {
            entity_info,
            capabilities,
            bank_set,
            bank_spec: BankSetSpec::for_well_known(bank_set),
            config,
            vm_service_addr,
            images_dir,
            fittings: Fittings {
                hsm,
                hsm_crypto: false,
                health_probe: false,
                coordinator: false,
                activator: false,
                provider_override: false,
                deactivator: false,
                reload: false,
                wall_clock: false,
            },
            did_numbers,
        };
        ComponentBackend {
            setup,
            running_bank,
            book: FlashBook::new(),
            did_cache: DidCache::new(),
            manifest_cache: None,
        }
    }

    /// Gives the component another name.
    pub fn with_display_name(self, name: String) -> (b: ComponentBackend)
        ensures
            b == (ComponentBackend {
                setup: ComponentSetup {
                    entity_info: EntityInfo { name, ..self.setup.entity_info },
                    ..self.setup
                },
                ..self
            }),
    {
        let mut made = self;
        made.setup.entity_info.name = name;
        made
    }

    /// Attaches the node's coordinator of updates.
    pub fn with_node_coordinator(self) -> (b: ComponentBackend)
        ensures
            coordinator_attached(self, b),
    {
        let mut made = self;
        made.setup.fittings.coordinator = true;
        made
    }

    /// Attaches what reloads the security module.
    pub fn with_post_provision_reload(self) -> (b: ComponentBackend)
        ensures
            reload_attached(self, b),
    {
        let mut made = self;
        made.setup.fittings.reload = true;
        made
    }

    /// Attaches the cryptographic services of the security module.
    pub fn with_hsm_crypto(self) -> (b: ComponentBackend)
        ensures
            hsm_crypto_attached(self, b),
    {
        let mut made = self;
        made.setup.fittings.hsm_crypto = true;
        made
    }

    /// Attaches what sets the clock of the host forward.
    pub fn with_wall_clock_floor(self) -> (b: ComponentBackend)
        ensures
            wall_clock_attached(self, b),
    {
        let mut made = self;
        made.setup.fittings.wall_clock = true;
        made
    }

    /// Lays out the banks otherwise.
    pub fn with_bank_spec(self, spec: BankSetSpec) -> (b: ComponentBackend)
        ensures
            b == (ComponentBackend {
                setup: ComponentSetup { bank_spec: spec, ..self.setup },
                ..self
            }),
    {
        let mut made = self;
        made.setup.bank_spec = spec;
        made
    }

    /// Attaches what runs when a bank is activated.
    pub fn with_bank_activator(self) -> (b: ComponentBackend)
        ensures
            activator_attached(self, b),
    {
        let mut made = self;
        made.setup.fittings.activator = true;
        made
    }

    /// The banks are looked after by another provider than the one that the
    /// configuration calls for.
    pub fn with_bank_provider(self) -> (b: ComponentBackend)
        ensures
            provider_override_attached(self, b),
    {
        let mut made = self;
        made.setup.fittings.provider_override = true;
        made
    }

    /// Attaches a source of health.
    pub fn with_health_probe(self) -> (b: ComponentBackend)
        ensures
            health_probe_attached(self, b),
    {
        let mut made = self;
        made.setup.fittings.health_probe = true;
        made
    }

    /// Attaches what stops the component for good. The component can be disabled
    /// from then on, and says that it has operations.
    pub fn with_deactivator(self) -> (b: ComponentBackend)
        ensures
            deactivator_attached(self, b),
    {
        let mut fittings = self.setup.fittings;
        fittings.deactivator = true;
        let mut capabilities = self.setup.capabilities;
        capabilities.operations = true;
        let setup = ComponentSetup { capabilities, fittings, ..self.setup };
        ComponentBackend { setup, ..self }
    }

    /// The same component with other fittings.
    pub open spec fn refitted(self, fittings: Fittings) -> ComponentBackend {
        ComponentBackend { setup: ComponentSetup { fittings, ..self.setup }, ..self }
    }

    /// How the component presents itself.
    pub fn entity_info(&self) -> (r: &EntityInfo)
        ensures
            *r == self.setup.entity_info,
    {
        &self.setup.entity_info
    }

    /// What can be asked of the component.
    pub fn capabilities(&self) -> (r: &Capabilities)
        ensures
            *r == self.setup.capabilities,
    {
        &self.setup.capabilities
    }

    /// How the component behaves.
    pub fn component_config(&self) -> (r: &ComponentConfig)
        ensures
            *r == self.setup.config,
    {
        &self.setup.config
    }

    /// The component's bank set.
    pub fn bank_set(&self) -> (r: BankSet)
        ensures
            r == self.setup.bank_set,
    {
        self.setup.bank_set
    }

    /// A service for virtual machines runs the component.
    pub fn has_vm_service(&self) -> (r: bool)
        ensures
            r == (self.setup.vm_service_addr is Some),
    {
        self.setup.vm_service_addr.is_some()
    }

    /// A security module is attached.
    pub fn has_hsm_provider(&self) -> (r: bool)
        ensures
            r == self.setup.fittings.hsm,
    {
        self.setup.fittings.hsm
    }

    /// The bank that the component runs from.
    pub fn running_bank(&self) -> (r: Bank)
        ensures
            r == self.running_bank,
    {
        self.running_bank
    }

    /// What has to restart for a new bank to take effect: what the activator or
    /// the provider that was put in declares, or the component alone where there
    /// is neither.
    pub fn reset_kind(&self, declared: ResetKind) -> (r: ResetKind)
        ensures
            r == self.reset_needed(declared),
    {
        if self.setup.fittings.activator || self.setup.fittings.provider_override {
            declared
        } else {
            ResetKind::Local
        }
    }

    /// What has to restart for a new bank to take effect.
    pub open spec fn reset_needed(self, declared: ResetKind) -> ResetKind {
        if self.setup.fittings.activator || self.setup.fittings.provider_override {
            declared
        } else {
            ResetKind::Local
        }
    }

    /// How the component is updated, in one word.
    pub fn update_shape(&self) -> (r: &'static str)
        ensures
            r@ == self.shape(),
    {
        if self.setup.config.single_bank {
            "singleshot"
        } else {
            "banked"
        }
    }

    /// How the component is updated, in one word.
    pub open spec fn shape(self) -> Seq<char> {
        if self.setup.config.single_bank {
            "singleshot"@
        } else {
            "banked"@
        }
    }

    /// Says where the next update pulls its payloads from.
    pub fn set_install_source(&mut self, source: InstallSource)
        requires
            old(self).wf(),
        ensures
            final(self).wf(),
            final(self).same_but_book(*old(self)),
            source_set(old(self).book@, final(self).book@, source),
    {
        self.book.install_source = Some(source);
    }

    /// Nothing but the book differs.
    pub open spec fn same_but_book(self, other: ComponentBackend) -> bool {
        &&& self.setup == other.setup
        &&& self.running_bank == other.running_bank
        &&& self.did_cache == other.did_cache
        &&& self.manifest_cache == other.manifest_cache
    }
}

/// What the activator or the provider that was put in declares counts; without either
/// only the component restarts.
pub proof fn law_who_says_what_restarts(b: ComponentBackend, declared: ResetKind)
    ensures
        b.reset_needed(declared) is RequiresEcuReset <==> declared is RequiresEcuReset && (
        b.setup.fittings.activator || b.setup.fittings.provider_override),
{
}

/// A component with a single bank is written in one go, and any other has two banks.
pub proof fn law_the_shape_follows_the_banks(b: ComponentBackend)
    ensures
        b.shape() == "singleshot"@ <==> b.setup.config.single_bank,
        b.shape() == "banked"@ <==> !b.setup.config.single_bank,
{
    reveal_strlit("singleshot");
    reveal_strlit("banked");
    assert("singleshot"@.len() != "banked"@.len());
}

/// A component that was just made is the one of its bank set and lies in the set's own
/// directory; it runs from bank A where it has a single bank or nothing is recorded of
/// its boot, and else from the bank that was active; it serves logs exactly when it has
/// sources of them, has no fitting but perhaps a security module, and remembers nothing.
pub proof fn law_a_component_is_made_bare(
    b: ComponentBackend,
    set: BankSet,
    boot: Option<BankBootState>,
    config: ComponentConfig,
    vm_service_addr: Option<String>,
    images_dir: Option<String>,
    hsm: bool,
    numbers: DidNumbers,
)
    requires
        just_made(b, set, boot, config, vm_service_addr, images_dir, hsm, numbers),
    ensures
        b.setup.bank_set == set,
        b.setup.bank_spec.dir_name@ == well_known_dir(set),
        config.single_bank ==> b.running_bank == Bank::A,
        boot is None ==> b.running_bank == Bank::A,
        !config.single_bank && boot is Some ==> b.running_bank == boot->0.active_bank,
        b.setup.capabilities.logs <==> config.log_sources@.len() > 0,
        b.setup.capabilities.read_data && b.setup.capabilities.write_data,
        b.setup.capabilities.faults && b.setup.capabilities.clear_faults,
        b.setup.capabilities.software_update,
        !b.setup.capabilities.operations,
        !b.setup.capabilities.io_control && !b.setup.capabilities.sessions,
        !b.setup.capabilities.security && !b.setup.capabilities.sub_entities,
        !b.setup.capabilities.subscriptions,
        b.setup.fittings.hsm == hsm,
        !b.setup.fittings.hsm_crypto && !b.setup.fittings.health_probe,
        !b.setup.fittings.coordinator && !b.setup.fittings.activator,
        !b.setup.fittings.provider_override && !b.setup.fittings.deactivator,
        !b.setup.fittings.reload && !b.setup.fittings.wall_clock,
        b.setup.vm_service_addr == vm_service_addr,
        b.setup.images_dir == images_dir,
        b.setup.did_numbers == numbers,
        b.setup.config == config,
        b.book@ == blank_book(),
        b.manifest_cache is None,
        b.setup.entity_info.id@.is_suffix_of(b.setup.entity_info.href@),
{
    let href = b.setup.entity_info.href@;
    let id = b.setup.entity_info.id@;
    assert(href.subrange(href.len() - id.len(), href.len() as int) =~= id);
}

/// Each bank set has a component of its own: no two well-known sets share an id.
pub proof fn law_sets_have_their_own_components(a: BankSet, b: BankSet)
    requires
        !(a is Custom),
        !(b is Custom),
    ensures
        set_id(a) == set_id(b) <==> a == b,
        set_id(BankSet::Hsm) == "hsm"@,
        set_id(BankSet::Bootloader) == "bootloader"@,
        set_id(BankSet::Os) == "host-os"@,
        set_id(BankSet::Rt) == "rt"@,
        set_id(BankSet::Vm1) == "vm1"@,
        set_id(BankSet::Vm2) == "vm2"@,
        set_name(BankSet::Hsm) == "HSM Key Store"@,
        set_name(BankSet::Bootloader) == "Bootloader"@,
        set_name(BankSet::Os) == "Host OS"@,
        set_name(BankSet::Rt) == "Realtime"@,
        set_name(BankSet::Vm1) == "VM1"@,
        set_name(BankSet::Vm2) == "VM2"@,
{
    reveal_strlit("hsm");
    reveal_strlit("bootloader");
    reveal_strlit("host-os");
    reveal_strlit("rt");
    reveal_strlit("vm1");
    reveal_strlit("vm2");
    assert("hsm"@[0] == 'h' && "vm1"@[0] == 'v' && "vm2"@[0] == 'v');
    assert("vm1"@[2] == '1' && "vm2"@[2] == '2');
    assert("hsm"@.len() == 3 && "vm1"@.len() == 3 && "vm2"@.len() == 3);
    assert("rt"@.len() == 2 && "host-os"@.len() == 7 && "bootloader"@.len() == 10);
}

/// Another fitting changes nothing else of a component.
pub proof fn law_refitting_changes_the_fittings_only(b: ComponentBackend, fittings: Fittings)
    ensures
        b.refitted(fittings).setup.fittings == fittings,
        b.refitted(fittings).setup.config == b.setup.config,
        b.refitted(fittings).setup.capabilities == b.setup.capabilities,
        b.refitted(fittings).setup.bank_set == b.setup.bank_set,
        b.refitted(fittings).setup.entity_info == b.setup.entity_info,
        b.refitted(fittings).running_bank == b.running_bank,
        b.refitted(fittings).book == b.book,
        b.refitted(fittings).did_cache == b.did_cache,
        b.refitted(fittings).manifest_cache == b.manifest_cache,
{
}

/// Each fitting is attached on its own: the component has it from then on, and no other
/// fitting comes or goes. Only with what stops it for good does a component say that it
/// has operations.
pub proof fn law_fittings_are_attached_one_by_one(before: ComponentBackend, after: ComponentBackend)
    ensures
        ({
            let a = before.setup.fittings;
            let b = after.setup.fittings;
            &&& hsm_crypto_attached(before, after) ==> b.hsm_crypto && b.hsm == a.hsm && b.health_probe == a.health_probe && b.coordinator == a.coordinator && b.activator == a.activator && b.provider_override == a.provider_override && b.deactivator == a.deactivator && b.reload == a.reload && b.wall_clock == a.wall_clock
            &&& health_probe_attached(before, after) ==> b.health_probe && b.hsm == a.hsm && b.hsm_crypto == a.hsm_crypto && b.coordinator == a.coordinator && b.activator == a.activator && b.provider_override == a.provider_override && b.deactivator == a.deactivator && b.reload == a.reload && b.wall_clock == a.wall_clock
            &&& coordinator_attached(before, after) ==> b.coordinator && b.hsm == a.hsm && b.hsm_crypto == a.hsm_crypto && b.health_probe == a.health_probe && b.activator == a.activator && b.provider_override == a.provider_override && b.deactivator == a.deactivator && b.reload == a.reload && b.wall_clock == a.wall_clock
            &&& activator_attached(before, after) ==> b.activator && b.hsm == a.hsm && b.hsm_crypto == a.hsm_crypto && b.health_probe == a.health_probe && b.coordinator == a.coordinator && b.provider_override == a.provider_override && b.deactivator == a.deactivator && b.reload == a.reload && b.wall_clock == a.wall_clock
            &&& provider_override_attached(before, after) ==> b.provider_override && b.hsm == a.hsm && b.hsm_crypto == a.hsm_crypto && b.health_probe == a.health_probe && b.coordinator == a.coordinator && b.activator == a.activator && b.deactivator == a.deactivator && b.reload == a.reload && b.wall_clock == a.wall_clock
            &&& deactivator_attached(before, after) ==> b.deactivator && b.hsm == a.hsm && b.hsm_crypto == a.hsm_crypto && b.health_probe == a.health_probe && b.coordinator == a.coordinator && b.activator == a.activator && b.provider_override == a.provider_override && b.reload == a.reload && b.wall_clock == a.wall_clock
            &&& reload_attached(before, after) ==> b.reload && b.hsm == a.hsm && b.hsm_crypto == a.hsm_crypto && b.health_probe == a.health_probe && b.coordinator == a.coordinator && b.activator == a.activator && b.provider_override == a.provider_override && b.deactivator == a.deactivator && b.wall_clock == a.wall_clock
            &&& wall_clock_attached(before, after) ==> b.wall_clock && b.hsm == a.hsm && b.hsm_crypto == a.hsm_crypto && b.health_probe == a.health_probe && b.coordinator == a.coordinator && b.activator == a.activator && b.provider_override == a.provider_override && b.deactivator == a.deactivator && b.reload == a.reload
            &&& deactivator_attached(before, after) ==> after.setup.capabilities.operations
                && after.setup.config == before.setup.config && after.book == before.book
                && after.running_bank == before.running_bank
        }),
{
}

/// Saying where payloads are pulled from changes that and nothing else.
pub proof fn law_a_source_is_remembered(before: BookView, after: BookView, source: InstallSource)
    requires
        source_set(before, after, source),
    ensures
        after.source == Some(source),
        after.session == before.session,
        after.transfer == before.transfer,
        after.upload_phase == before.upload_phase,
        after.packages == before.packages,
        after.parts == before.parts,
        after.next_id == before.next_id,
{
}

} // verus!
