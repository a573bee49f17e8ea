//! The supported package managers: their files, install commands and pinned
//! versions, and the native lockfile importers between them.
use vstd::prelude::*;
use crate::model::{
    parse_manager_spec, ExecutableRequirement, NativeImportMode, NativeImportStrategy, PackageManagerId,
    SupportTier,
};
use crate::text::{chars_of, rfind_char, rfind_char_exec, slice_of, string_of, strs};

verus! {

/// What the library knows of one package manager.
#[derive(Debug, Clone)]
pub struct PackageManagerDefinition {
    pub id: PackageManagerId,
    pub display_name: &'static str,
    pub tier: SupportTier,
    pub aliases: Vec<&'static str>,
    pub lockfiles: Vec<&'static str>,
    pub configuration_files: Vec<&'static str>,
    pub install_command: Vec<&'static str>,
    pub package_manager_pin: &'static str,
}

pub open spec fn statics(v: Seq<&'static str>) -> Seq<Seq<char>> {
    v.map_values(|s: &'static str| s@)
}

/// Every catalogued package manager is a production migration target.
pub open spec fn catalog_tier(id: PackageManagerId) -> SupportTier {
    SupportTier::ProductionTarget
}

pub open spec fn display_name_spec(id: PackageManagerId) -> Seq<char> {
    match id {
        PackageManagerId::Npm => "npm"@,
        PackageManagerId::Pnpm => "pnpm"@,
        PackageManagerId::YarnClassic => "Yarn Classic"@,
        PackageManagerId::YarnModern => "Yarn Modern"@,
        PackageManagerId::Bun => "Bun"@,
        PackageManagerId::Vlt => "vlt"@,
        PackageManagerId::Deno => "Deno dependency mode"@,
    }
}

pub open spec fn aliases_spec(id: PackageManagerId) -> Seq<Seq<char>> {
    match id {
        PackageManagerId::Npm => seq!["npm"@],
        PackageManagerId::Pnpm => seq!["pnpm"@],
        PackageManagerId::YarnClassic => seq!["yarn-classic"@, "yarn@1"@],
        PackageManagerId::YarnModern => seq!["yarn-modern"@, "yarn-berry"@],
        PackageManagerId::Bun => seq!["bun"@],
        PackageManagerId::Vlt => seq!["vlt"@],
        PackageManagerId::Deno => seq!["deno"@],
    }
}

pub open spec fn lockfiles_spec(id: PackageManagerId) -> Seq<Seq<char>> {
    match id {
        PackageManagerId::Npm => seq!["npm-shrinkwrap.json"@, "package-lock.json"@],
        PackageManagerId::Pnpm => seq!["pnpm-lock.yaml"@],
        PackageManagerId::YarnClassic => seq!["yarn.lock"@],
        PackageManagerId::YarnModern => seq!["yarn.lock"@],
        PackageManagerId::Bun => seq!["bun.lock"@, "bun.lockb"@],
        PackageManagerId::Vlt => seq!["vlt-lock.json"@],
        PackageManagerId::Deno => seq!["deno.lock"@],
    }
}

pub open spec fn configuration_files_spec(id: PackageManagerId) -> Seq<Seq<char>> {
    match id {
        PackageManagerId::Npm => seq![".npmrc"@],
        PackageManagerId::Pnpm => seq!["pnpm-workspace.yaml"@, ".npmrc"@, ".pnpmfile.cjs"@],
        PackageManagerId::YarnClassic => seq![".yarnrc"@, ".npmrc"@],
        PackageManagerId::YarnModern => seq![".yarnrc.yml"@, ".pnp.cjs"@, ".pnp.loader.mjs"@],
        PackageManagerId::Bun => seq!["bunfig.toml"@, ".npmrc"@],
        PackageManagerId::Vlt => seq!["vlt.json"@],
        PackageManagerId::Deno => seq!["deno.json"@, "deno.jsonc"@, ".npmrc"@],
    }
}

pub open spec fn install_command_spec(id: PackageManagerId) -> Seq<Seq<char>> {
    match id {
        PackageManagerId::Npm => seq!["npm"@, "install"@, "--ignore-scripts"@],
        PackageManagerId::Pnpm => seq!["pnpm"@, "install"@, "--ignore-scripts"@],
        PackageManagerId::YarnClassic => seq!["yarn"@, "install"@, "--ignore-scripts"@],
        PackageManagerId::YarnModern => seq!["yarn"@, "install"@, "--mode=skip-build"@],
        PackageManagerId::Bun => seq!["bun"@, "install"@, "--ignore-scripts"@],
        PackageManagerId::Vlt => seq!["vlt"@, "install"@],
        PackageManagerId::Deno => seq!["deno"@, "install"@],
    }
}

pub open spec fn pin_spec(id: PackageManagerId) -> Seq<char> {
    match id {
        PackageManagerId::Npm => "npm@12.0.2"@,
        PackageManagerId::Pnpm => "pnpm@11.21.0"@,
        PackageManagerId::YarnClassic => "yarn@1.22.22"@,
        PackageManagerId::YarnModern => "yarn@4.18.0"@,
        PackageManagerId::Bun => "bun@1.3.14"@,
        PackageManagerId::Vlt => "vlt@1.0.2"@,
        PackageManagerId::Deno => "deno@2.9.5"@,
    }
}

/// The catalog entry of `id`.
pub fn get_package_manager(id: PackageManagerId) -> (d: PackageManagerDefinition)
    ensures
        d.id == id,
        d.display_name@ == display_name_spec(id),
        d.tier == catalog_tier(id),
        statics(d.aliases@) == aliases_spec(id),
        statics(d.lockfiles@) == lockfiles_spec(id),
        statics(d.configuration_files@) == configuration_files_spec(id),
        statics(d.install_command@) == install_command_spec(id),
        d.package_manager_pin@ == pin_spec(id),
{
    let d =     match id {
            PackageManagerId::Npm => PackageManagerDefinition {
                id,
                display_name: "npm",
                tier: SupportTier::ProductionTarget,
                aliases: vec!["npm"],
                lockfiles: vec!["npm-shrinkwrap.json", "package-lock.json"],
                configuration_files: vec![".npmrc"],
                install_command: vec!["npm", "install", "--ignore-scripts"],
                package_manager_pin: "npm@12.0.2",
            },
            PackageManagerId::Pnpm => PackageManagerDefinition {
                id,
                display_name: "pnpm",
                tier: SupportTier::ProductionTarget,
                aliases: vec!["pnpm"],
                lockfiles: vec!["pnpm-lock.yaml"],
                configuration_files: vec!["pnpm-workspace.yaml", ".npmrc", ".pnpmfile.cjs"],
                install_command: vec!["pnpm", "install", "--ignore-scripts"],
                package_manager_pin: "pnpm@11.21.0",
            },
            PackageManagerId::YarnClassic => PackageManagerDefinition {
                id,
                display_name: "Yarn Classic",
                tier: SupportTier::ProductionTarget,
                aliases: vec!["yarn-classic", "yarn@1"],
                lockfiles: vec!["yarn.lock"],
                configuration_files: vec![".yarnrc", ".npmrc"],
                install_command: vec!["yarn", "install", "--ignore-scripts"],
                package_manager_pin: "yarn@1.22.22",
            },
            PackageManagerId::YarnModern => PackageManagerDefinition {
                id,
                display_name: "Yarn Modern",
                tier: SupportTier::ProductionTarget,
                aliases: vec!["yarn-modern", "yarn-berry"],
                lockfiles: vec!["yarn.lock"],
                configuration_files: vec![".yarnrc.yml", ".pnp.cjs", ".pnp.loader.mjs"],
                install_command: vec!["yarn", "install", "--mode=skip-build"],
                package_manager_pin: "yarn@4.18.0",
            },
            PackageManagerId::Bun => PackageManagerDefinition {
                id,
                display_name: "Bun",
                tier: SupportTier::ProductionTarget,
                aliases: vec!["bun"],
                lockfiles: vec!["bun.lock", "bun.lockb"],
                configuration_files: vec!["bunfig.toml", ".npmrc"],
                install_command: vec!["bun", "install", "--ignore-scripts"],
                package_manager_pin: "bun@1.3.14",
            },
            PackageManagerId::Vlt => PackageManagerDefinition {
                id,
                display_name: "vlt",
                tier: SupportTier::ProductionTarget,
                aliases: vec!["vlt"],
                lockfiles: vec!["vlt-lock.json"],
                configuration_files: vec!["vlt.json"],
                install_command: vec!["vlt", "install"],
                package_manager_pin: "vlt@1.0.2",
            },
            PackageManagerId::Deno => PackageManagerDefinition {
                id,
                display_name: "Deno dependency mode",
                tier: SupportTier::ProductionTarget,
                aliases: vec!["deno"],
                lockfiles: vec!["deno.lock"],
                configuration_files: vec!["deno.json", "deno.jsonc", ".npmrc"],
                install_command: vec!["deno", "install"],
                package_manager_pin: "deno@2.9.5",
            },
        };
    assert(statics(d.aliases@) =~= aliases_spec(id));
    assert(statics(d.lockfiles@) =~= lockfiles_spec(id));
    assert(statics(d.configuration_files@) =~= configuration_files_spec(id));
    assert(statics(d.install_command@) =~= install_command_spec(id));
    d
}

/// The version part of a pin `program@version`.
pub open spec fn pinned_version(pin: Seq<char>) -> Seq<char> {
    match rfind_char(pin, '@') {
        Some(i) => pin.skip(i + 1),
        None => seq![],
    }
}

/// The program, exact version and version probe a package manager must have.
pub fn executable_requirement(id: PackageManagerId) -> (r: ExecutableRequirement)
    ensures
        r.program@ == install_command_spec(id)[0],
        r.required_version@ == pinned_version(pin_spec(id)),
        strs(r.version_command@) == seq![install_command_spec(id)[0], "--version"@],
        r.package_manager_pin@ == pin_spec(id),
{
    let d = get_package_manager(id);
    proof {
        reveal_strlit("npm");
        reveal_strlit("pnpm");
        reveal_strlit("yarn");
        reveal_strlit("bun");
        reveal_strlit("vlt");
        reveal_strlit("deno");
    }
    assert(install_command_spec(id).len() >= 2);
    assert(d.install_command@.len() == statics(d.install_command@).len());
    assert(statics(d.install_command@)[0] == d.install_command@[0]@);
    let program = d.install_command[0];
    let pin = chars_of(d.package_manager_pin);
    proof {
        crate::text::lemma_rfind_char_bounds(pin@, '@');
        reveal_strlit("npm@12.0.2");
        reveal_strlit("pnpm@11.21.0");
        reveal_strlit("yarn@1.22.22");
        reveal_strlit("yarn@4.18.0");
        reveal_strlit("bun@1.3.14");
        reveal_strlit("vlt@1.0.2");
        reveal_strlit("deno@2.9.5");
    }
    let version = match rfind_char_exec(&pin, '@') {
        Some(i) => {
            let v = slice_of(&pin, i + 1, pin.len());
            assert(v@ =~= pin@.skip(i + 1));
            v
        },
        None => Vec::new(),
    };
    assert(version@ =~= pinned_version(pin_spec(id)));
    let mut version_command: Vec<String> = Vec::new();
    version_command.push(program.to_owned());
    version_command.push("--version".to_owned());
    assert(strs(version_command@) =~= seq![install_command_spec(id)[0], "--version"@]);
    ExecutableRequirement {
        program: program.to_owned(),
        required_version: string_of(&version),
        version_command,
        package_manager_pin: d.package_manager_pin.to_owned(),
    }
}

/// The package manager a (case-insensitive, trimmed) name or alias denotes.
pub fn normalize_package_manager_id(value: &str) -> (r: Option<PackageManagerId>)
    ensures
        r == parse_manager_spec(value@),
{
    PackageManagerId::parse(value)
}

/// The native importer that turns `source`'s lockfile into `target`'s: its
/// identifier, how it runs, its command and its description.
pub open spec fn native_import_spec(source: PackageManagerId, target: PackageManagerId) -> Option<
    (Seq<char>, NativeImportMode, Seq<Seq<char>>, Seq<char>),
> {
    match (source, target) {
        (PackageManagerId::Npm, PackageManagerId::Pnpm)
        | (PackageManagerId::YarnClassic, PackageManagerId::Pnpm)
        | (PackageManagerId::YarnModern, PackageManagerId::Pnpm) => Some(
            (
                "pnpm-import"@,
                NativeImportMode::DedicatedCommand,
                seq!["pnpm"@, "import"@],
                "Generate pnpm dependency state with pnpm's native lockfile importer."@,
            ),
        ),
        (PackageManagerId::Npm, PackageManagerId::Bun)
        | (PackageManagerId::YarnClassic, PackageManagerId::Bun)
        | (PackageManagerId::YarnModern, PackageManagerId::Bun) => Some(
            (
                "bun-pm-migrate"@,
                NativeImportMode::DedicatedCommand,
                seq!["bun"@, "pm"@, "migrate"@],
                "Generate Bun dependency state with bun pm migrate."@,
            ),
        ),
        (PackageManagerId::Pnpm, PackageManagerId::Bun) => Some(
            (
                "bun-pnpm-install-migration"@,
                NativeImportMode::InstallIntegrated,
                install_command_spec(target),
                "Use Bun's install-integrated pnpm lockfile migration path."@,
            ),
        ),
        (PackageManagerId::Npm, PackageManagerId::YarnClassic) => Some(
            (
                "yarn-classic-import"@,
                NativeImportMode::DedicatedCommand,
                seq!["yarn"@, "import"@],
                "Generate Yarn Classic dependency state with yarn import."@,
            ),
        ),
        (PackageManagerId::YarnClassic, PackageManagerId::YarnModern) => Some(
            (
                "yarn-modern-install-migration"@,
                NativeImportMode::InstallIntegrated,
                install_command_spec(target),
                "Use Yarn Modern's install-integrated Yarn Classic migration path."@,
            ),
        ),
        (PackageManagerId::YarnClassic, PackageManagerId::Npm) => Some(
            (
                "npm-yarn-lock-install"@,
                NativeImportMode::InstallIntegrated,
                install_command_spec(target),
                "Use npm's yarn.lock-aware installation path."@,
            ),
        ),
        (PackageManagerId::Npm, PackageManagerId::Deno) => Some(
            (
                "deno-install-migration"@,
                NativeImportMode::InstallIntegrated,
                install_command_spec(target),
                "Use Deno's install-integrated Node dependency migration path."@,
            ),
        ),
        _ => None,
    }
}

fn to_strings(v: &Vec<&'static str>) -> (r: Vec<String>)
    ensures
        strs(r@) == statics(v@),
{
    let mut r: Vec<String> = Vec::new();
    let mut i: usize = 0;
    while i < v.len()
        invariant
            i <= v.len(),
            strs(r@) == statics(v@).take(i as int),
        decreases v.len() - i,
    {
        let s = v[i].to_owned();
        let ghost before = r@;
        r.push(s);
        assert(strs(r@) =~= strs(before).push(s@));
        assert(statics(v@).take(i + 1) =~= statics(v@).take(i as int).push(v@[i as int]@));
        i = i + 1;
    }
    assert(statics(v@).take(v.len() as int) =~= statics(v@));
    r
}

/// The native importer from `source` to `target`, when the source lockfile is present.
pub fn native_import_strategy(
    source: PackageManagerId,
    target: PackageManagerId,
    source_lockfile_present: bool,
) -> (r: Option<NativeImportStrategy>)
    ensures
        !source_lockfile_present ==> r is None,
        source_lockfile_present ==> match native_import_spec(source, target) {
            None => r is None,
            Some(s) => r matches Some(x) && x.id@ == s.0 && x.source == source && x.target == target
                && x.mode == s.1 && strs(x.command@) == s.2 && x.summary@ == s.3,
        },
{
    if !source_lockfile_present {
        return None;
    }
    let (id, mode, command, summary): (&str, NativeImportMode, Vec<&'static str>, &str) = match (source, target) {
        (PackageManagerId::Npm, PackageManagerId::Pnpm)
        | (PackageManagerId::YarnClassic, PackageManagerId::Pnpm)
        | (PackageManagerId::YarnModern, PackageManagerId::Pnpm) => (
            "pnpm-import",
            NativeImportMode::DedicatedCommand,
            vec!["pnpm", "import"],
            "Generate pnpm dependency state with pnpm's native lockfile importer.",
        ),
        (PackageManagerId::Npm, PackageManagerId::Bun)
        | (PackageManagerId::YarnClassic, PackageManagerId::Bun)
        | (PackageManagerId::YarnModern, PackageManagerId::Bun) => (
            "bun-pm-migrate",
            NativeImportMode::DedicatedCommand,
            vec!["bun", "pm", "migrate"],
            "Generate Bun dependency state with bun pm migrate.",
        ),
        (PackageManagerId::Pnpm, PackageManagerId::Bun) => (
            "bun-pnpm-install-migration",
            NativeImportMode::InstallIntegrated,
            get_package_manager(target).install_command,
            "Use Bun's install-integrated pnpm lockfile migration path.",
        ),
        (PackageManagerId::Npm, PackageManagerId::YarnClassic) => (
            "yarn-classic-import",
            NativeImportMode::DedicatedCommand,
            vec!["yarn", "import"],
            "Generate Yarn Classic dependency state with yarn import.",
        ),
        (PackageManagerId::YarnClassic, PackageManagerId::YarnModern) => (
            "yarn-modern-install-migration",
            NativeImportMode::InstallIntegrated,
            get_package_manager(target).install_command,
            "Use Yarn Modern's install-integrated Yarn Classic migration path.",
        ),
        (PackageManagerId::YarnClassic, PackageManagerId::Npm) => (
            "npm-yarn-lock-install",
            NativeImportMode::InstallIntegrated,
            get_package_manager(target).install_command,
            "Use npm's yarn.lock-aware installation path.",
        ),
        (PackageManagerId::Npm, PackageManagerId::Deno) => (
            "deno-install-migration",
            NativeImportMode::InstallIntegrated,
            get_package_manager(target).install_command,
            "Use Deno's install-integrated Node dependency migration path.",
        ),
        _ => {
            return None;
        },
    };
    let command_strings = to_strings(&command);
    Some(
        NativeImportStrategy {
            id: id.to_owned(),
            source,
            target,
            mode,
            command: command_strings,
            summary: summary.to_owned(),
        },
    )
}

} // verus!
