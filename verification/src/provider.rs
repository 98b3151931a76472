//! Provider descriptors and the process-scoped registry that holds them.
//!
//! A provider is a named bundle of packages, static configuration-file
//! placements and manifest script entries. The registry maps provider names
//! to descriptors; registering a name twice keeps the later descriptor.

use vstd::prelude::*;

use crate::document::{wf, Value, ValueModel};
use crate::error::ConfigError;
use crate::utils::{
    scripts_after_remove, scripts_after_write, scripts_table, scripts_wf, AmarisInstaller,
    AmarisPackageJsonHandler, PackageCommand,
};

verus! {

/// Declares that a static file must exist at `file_location`, populated from
/// the provider-owned template named `source_from`.
pub struct ConfigEntry {
    pub file_location: String,
    pub file_name: String,
    pub source_from: String,
}

/// A named entry for the package manifest's script table.
pub struct ScriptEntry {
    pub name: String,
    pub script: String,
}

/// A declarative provider descriptor, immutable once loaded and identified
/// by its unique `name`.
pub struct DynamicProvider {
    pub name: String,
    pub description: String,
    pub package_manager: String,
    pub packages: Vec<String>,
    pub configuration: Vec<ConfigEntry>,
    pub scripts: Vec<ScriptEntry>,
}

/// Whether a provider list holds a provider with name `n`.
pub open spec fn reg_has_name(s: Seq<DynamicProvider>, n: Seq<char>) -> bool {
    exists|i: int| 0 <= i < s.len() && s[i].name@ == n
}

/// Whether all provider names in a list are distinct.
pub open spec fn reg_names_unique(s: Seq<DynamicProvider>) -> bool {
    forall|i: int, j: int| 0 <= i < j < s.len() ==> s[i].name@ != s[j].name@
}

/// The process-scoped registry of providers, keyed by name.
pub struct AmarisRegistry {
    providers: Vec<DynamicProvider>,
}

impl View for AmarisRegistry {
    type V = Seq<DynamicProvider>;

    closed spec fn view(&self) -> Seq<DynamicProvider> {
        self.providers@
    }
}

impl AmarisRegistry {
    /// An empty registry.
    pub fn new() -> (r: Self)
        ensures
            r@.len() == 0,
            reg_names_unique(r@),
    {
        AmarisRegistry { providers: Vec::new() }
    }

    /// Registers a provider; a provider already held under the same name is
    /// replaced (last wins), any other provider is untouched.
    pub fn register(&mut self, provider: DynamicProvider)
        requires
            reg_names_unique(old(self)@),
        ensures
            reg_names_unique(final(self)@),
            reg_has_name(old(self)@, provider.name@) ==> exists|j: int|
                0 <= j < old(self)@.len() && old(self)@[j].name@ == provider.name@ && final(self)@
                    == old(self)@.update(j, provider),
            !reg_has_name(old(self)@, provider.name@) ==> final(self)@ == old(self)@.push(
                provider,
            ),
    {
        let mut i: usize = 0;
        while i < self.providers.len()
            invariant
                reg_names_unique(self@),
                self@ == old(self)@,
                i <= self@.len(),
                forall|j: int| 0 <= j < i ==> self@[j].name@ != provider.name@,
            decreases self@.len() - i,
        {
            if self.providers[i].name.eq(&provider.name) {
                self.providers[i] = provider;
                proof {
                    assert(self@ =~= old(self)@.update(i as int, self@[i as int]));
                }
                return ;
            }
            i += 1;
        }
        self.providers.push(provider);
        proof {
            assert(!reg_has_name(old(self)@, provider.name@));
            assert forall|x: int, y: int| 0 <= x < y < self@.len() implies self@[x].name@
                != self@[y].name@ by {
                if y < self@.len() - 1 {
                    assert(old(self)@[x].name@ != old(self)@[y].name@);
                }
            }
        }
    }

    /// Looks a provider up by name.
    pub fn get_provider(&self, name: &str) -> (r: Option<&DynamicProvider>)
        ensures
            match r {
                Some(p) => p.name@ == name@ && exists|i: int|
                    0 <= i < self@.len() && self@[i] == *p,
                None => !reg_has_name(self@, name@),
            },
    {
        let wanted: String = name.to_owned();
        let mut i: usize = 0;
        while i < self.providers.len()
            invariant
                wanted@ == name@,
                i <= self@.len(),
                forall|j: int| 0 <= j < i ==> self@[j].name@ != name@,
            decreases self@.len() - i,
        {
            if self.providers[i].name.eq(&wanted) {
                return Some(&self.providers[i]);
            }
            i += 1;
        }
        None
    }

    /// The name and description of every registered provider.
    pub fn available_configs(&self) -> (r: Vec<(String, String)>)
        ensures
            r@.len() == self@.len(),
            forall|i: int|
                0 <= i < r@.len() ==> #[trigger] r@[i].0@ == self@[i].name@ && r@[i].1@
                    == self@[i].description@,
    {
        let mut out: Vec<(String, String)> = Vec::new();
        let mut i: usize = 0;
        while i < self.providers.len()
            invariant
                i <= self@.len(),
                out@.len() == i,
                forall|j: int| #![auto] 0 <= j < i ==> out@[j].0@ == self@[j].name@,
                forall|j: int| #![auto] 0 <= j < i ==> out@[j].1@ == self@[j].description@,
            decreases self@.len() - i,
    {
            out.push((self.providers[i].name.clone(), self.providers[i].description.clone()));
            i += 1;
        }
        out
    }
}

impl DynamicProvider {
    /// The outcome of the prerequisite check, from what the system reported:
    /// the package-manager executable must be discoverable and the package
    /// manifest must exist at the project root.
    pub fn check_prerequisites(&self, manager_found: bool, manifest_exists: bool) -> (r: Result<
        (),
        ConfigError,
    >)
        ensures
            r is Ok <==> (manager_found && manifest_exists),
            !manager_found ==> (r matches Err(ConfigError::MissingPrerequisite(m)) && m@
                == "Package manager not found"@),
            manager_found && !manifest_exists ==> (r matches Err(
                ConfigError::MissingPrerequisite(m),
            ) && m@ == "package.json not found!"@),
    {
        if !manager_found {
            Err(ConfigError::MissingPrerequisite("Package manager not found".to_owned()))
        } else if !manifest_exists {
            Err(ConfigError::MissingPrerequisite("package.json not found!".to_owned()))
        } else {
            Ok(())
        }
    }

    /// The package-manager invocations that install this provider's
    /// packages, in order; the first failed one aborts the rest.
    pub fn install_commands(&self) -> (r: Vec<PackageCommand>)
        ensures
            r@.len() == self.packages@.len(),
            forall|i: int|
                0 <= i < r@.len() ==> (#[trigger] r@[i]).program@ == self.package_manager@
                    && r@[i].args@.len() == 3 && r@[i].args@[0]@ == "install"@ && r@[i].args@[1]@
                    == "--dev"@ && r@[i].args@[2]@ == self.packages@[i]@,
    {
        AmarisInstaller::install(self.package_manager.as_str(), &self.packages)
    }

    /// The package-manager invocations that remove this provider's
    /// packages, in order.
    pub fn remove_commands(&self) -> (r: Vec<PackageCommand>)
        ensures
            r@.len() == self.packages@.len(),
            forall|i: int|
                0 <= i < r@.len() ==> (#[trigger] r@[i]).program@ == self.package_manager@
                    && r@[i].args@.len() == 2 && r@[i].args@[0]@ == "remove"@ && r@[i].args@[1]@
                    == self.packages@[i]@,
    {
        AmarisInstaller::remove(self.package_manager.as_str(), &self.packages)
    }

    /// Writes this provider's script entries into the manifest.
    pub fn apply_scripts(&self, doc: &Value) -> (r: Value)
        requires
            doc@ is Obj,
            wf(*doc),
            scripts_wf(doc@),
        ensures
            r@ is Obj,
            wf(r),
            r@->Obj_0.dom() == doc@->Obj_0.dom().insert("scripts"@),
            forall|k: Seq<char>|
                #[trigger] doc@->Obj_0.dom().contains(k) && k != "scripts"@ ==> r@->Obj_0[k]
                    == doc@->Obj_0[k],
            r@->Obj_0["scripts"@] == ValueModel::Obj(
                scripts_after_write(scripts_table(doc@), self.scripts@),
            ),
    {
        AmarisPackageJsonHandler::write_scripts(doc, &self.scripts)
    }

    /// Deletes this provider's script entries from the manifest by name.
    pub fn revert_scripts(&self, doc: &Value) -> (r: Value)
        requires
            doc@ is Obj,
            wf(*doc),
            doc@->Obj_0.dom().contains("scripts"@),
            doc@->Obj_0["scripts"@] is Obj,
        ensures
            r@ is Obj,
            wf(r),
            r@->Obj_0.dom() == doc@->Obj_0.dom(),
            forall|k: Seq<char>|
                #[trigger] doc@->Obj_0.dom().contains(k) && k != "scripts"@ ==> r@->Obj_0[k]
                    == doc@->Obj_0[k],
            r@->Obj_0["scripts"@] == ValueModel::Obj(
                scripts_after_remove(scripts_table(doc@), self.scripts@),
            ),
    {
        AmarisPackageJsonHandler::remove_scripts(doc, &self.scripts)
    }
}

} // verus!
