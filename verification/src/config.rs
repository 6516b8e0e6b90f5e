//! Configuration model for the zkSolc-style compiler.
//!
//! Plain data types for one compilation run: the optimizer parameters, the
//! settings, the top-level configuration, and a builder that assembles a
//! configuration from optional pieces, substituting defaults for whatever was
//! never set.  Every type has a mathematical view, and `Default` and the
//! builder are specified field by field over those views.
use vstd::prelude::*;
use vstd::string::StringExecFns;

verus! {

/// An import remapping: redirects `name` to `path` during compilation.
#[derive(Clone, Debug)]
pub struct Remapping {
    /// The import prefix being redirected.
    pub name: String,
    /// The path the prefix resolves to instead.
    pub path: String,
}

/// The mathematical value of a `Remapping`.
pub struct RemappingView {
    pub name: Seq<char>,
    pub path: Seq<char>,
}

impl View for Remapping {
    type V = RemappingView;

    open spec fn view(&self) -> RemappingView {
        RemappingView { name: self.name@, path: self.path@ }
    }
}

impl DeepView for Remapping {
    type V = RemappingView;

    open spec fn deep_view(&self) -> RemappingView {
        self.view()
    }
}

/// One source file handed to the compiler.
#[derive(Clone, Debug)]
pub struct Source {
    /// The text of the source file.
    pub content: String,
}

/// The mathematical value of a `Source`.
pub struct SourceView {
    pub content: Seq<char>,
}

impl View for Source {
    type V = SourceView;

    open spec fn view(&self) -> SourceView {
        SourceView { content: self.content@ }
    }
}

impl DeepView for Source {
    type V = SourceView;

    open spec fn deep_view(&self) -> SourceView {
        self.view()
    }
}

/// Metadata-emission settings.
#[derive(Clone, Debug)]
pub struct SettingsMetadata {
    /// Whether to store the literal source text in the metadata.
    pub use_literal_content: Option<bool>,
    /// The hash method for the bytecode metadata, e.g. "ipfs".
    pub bytecode_hash: Option<String>,
}

/// The mathematical value of a `SettingsMetadata`.
pub struct SettingsMetadataView {
    pub use_literal_content: Option<bool>,
    pub bytecode_hash: Option<Seq<char>>,
}

impl View for SettingsMetadata {
    type V = SettingsMetadataView;

    open spec fn view(&self) -> SettingsMetadataView {
        SettingsMetadataView {
            use_literal_content: self.use_literal_content,
            bytecode_hash: self.bytecode_hash.deep_view(),
        }
    }
}

impl DeepView for SettingsMetadata {
    type V = SettingsMetadataView;

    open spec fn deep_view(&self) -> SettingsMetadataView {
        self.view()
    }
}

/// Fine-grained optimizer sub-settings; every flag is optional.
#[derive(Clone, Copy, Debug)]
pub struct OptimizerDetails {
    pub peephole: Option<bool>,
    pub inliner: Option<bool>,
    pub jumpdest_remover: Option<bool>,
    pub order_literals: Option<bool>,
    pub deduplicate: Option<bool>,
    pub cse: Option<bool>,
    pub constant_optimizer: Option<bool>,
    pub yul: Option<bool>,
}

/// Selection of the compiler outputs to produce, per file and per contract:
/// each entry maps a file pattern to contract patterns, and each contract
/// pattern to the list of requested outputs.
#[derive(Clone, Debug)]
pub struct OutputSelection {
    /// Ordered (file, (contract, outputs)) entries.
    pub selection: Vec<(String, Vec<(String, Vec<String>)>)>,
}

/// Deployed library addresses: each entry maps a source file (or the empty
/// string for the global level) to (library name, address) pairs.
#[derive(Clone, Debug)]
pub struct Libraries {
    /// Ordered (file, (library, address)) entries.
    pub libs: Vec<(String, Vec<(String, String)>)>,
}

/// Bytecode optimization parameters.
#[derive(Clone, Debug)]
pub struct Optimizer {
    /// Whether the optimizer is enabled; absent means the backend default.
    pub enabled: Option<bool>,
    /// The optimization mode string.
    pub mode: Option<String>,
    /// Fine-grained optimizer sub-settings.
    pub details: Option<OptimizerDetails>,
    /// Whether to retry optimizing for size if the bytecode is too large.
    pub fallback_to_optimizing_for_size: Option<bool>,
    /// Whether to disable the system request memoization.
    pub disable_system_request_memoization: bool,
}

/// The mathematical value of an `Optimizer`.
pub struct OptimizerView {
    pub enabled: Option<bool>,
    pub mode: Option<Seq<char>>,
    pub details: Option<OptimizerDetails>,
    pub fallback_to_optimizing_for_size: Option<bool>,
    pub disable_system_request_memoization: bool,
}

impl View for Optimizer {
    type V = OptimizerView;

    open spec fn view(&self) -> OptimizerView {
        OptimizerView {
            enabled: self.enabled,
            mode: self.mode.deep_view(),
            details: self.details,
            fallback_to_optimizing_for_size: self.fallback_to_optimizing_for_size,
            disable_system_request_memoization: self.disable_system_request_memoization,
        }
    }
}

/// Compiler settings for one compilation run.
#[derive(Clone, Debug)]
pub struct Settings {
    /// Remappings to apply to the source files; an empty list is omitted from
    /// the serialized form.
    pub remappings: Vec<Remapping>,
    /// The optimization settings, always present.
    pub optimizer: Optimizer,
    /// Metadata settings; absent is omitted from the serialized form.
    pub metadata: Option<SettingsMetadata>,
    /// Which compiler outputs to produce.
    pub output_selection: OutputSelection,
    /// Deployed library addresses.
    pub libraries: Libraries,
    /// Whether to enable the system contract compilation mode.
    pub is_system: bool,
    /// Whether to force the EVM legacy assembly pipeline.
    pub force_evmla: bool,
    /// Where to record library dependencies that could not be resolved;
    /// absent is omitted from the serialized form.
    pub missing_libraries_path: Option<String>,
    /// Whether libraries are known to be missing; suppresses success logging.
    pub are_libraries_missing: bool,
    /// Contracts compilation is restricted to; an empty list is omitted from
    /// the serialized form.
    pub contracts_to_compile: Vec<String>,
}

/// The mathematical value of a `Settings`.
pub struct SettingsView {
    pub remappings: Seq<RemappingView>,
    pub optimizer: OptimizerView,
    pub metadata: Option<SettingsMetadataView>,
    pub output_selection: Seq<(Seq<char>, Seq<(Seq<char>, Seq<Seq<char>>)>)>,
    pub libraries: Seq<(Seq<char>, Seq<(Seq<char>, Seq<char>)>)>,
    pub is_system: bool,
    pub force_evmla: bool,
    pub missing_libraries_path: Option<Seq<char>>,
    pub are_libraries_missing: bool,
    pub contracts_to_compile: Seq<Seq<char>>,
}

impl View for Settings {
    type V = SettingsView;

    open spec fn view(&self) -> SettingsView {
        SettingsView {
            remappings: self.remappings.deep_view(),
            optimizer: self.optimizer@,
            metadata: self.metadata.deep_view(),
            output_selection: self.output_selection.selection.deep_view(),
            libraries: self.libraries.libs.deep_view(),
            is_system: self.is_system,
            force_evmla: self.force_evmla,
            missing_libraries_path: self.missing_libraries_path.deep_view(),
            are_libraries_missing: self.are_libraries_missing,
            contracts_to_compile: self.contracts_to_compile.deep_view(),
        }
    }
}

impl DeepView for Settings {
    type V = SettingsView;

    open spec fn deep_view(&self) -> SettingsView {
        self.view()
    }
}

/// The default optimizer: everything unset, memoization not disabled.
pub open spec fn default_optimizer_view() -> OptimizerView {
    OptimizerView {
        enabled: None,
        mode: None,
        details: None,
        fallback_to_optimizing_for_size: None,
        disable_system_request_memoization: false,
    }
}

/// The standard output selection: for every file and every contract, the ABI,
/// the bytecode, the deployed bytecode and the method identifiers.
pub open spec fn default_output_selection_view() -> Seq<
    (Seq<char>, Seq<(Seq<char>, Seq<Seq<char>>)>),
> {
    seq![
        (
            "*"@,
            seq![
                (
                    "*"@,
                    seq!["abi"@, "evm.bytecode"@, "evm.deployedBytecode"@, "evm.methodIdentifiers"@],
                )
            ],
        )
    ]
}

/// The default settings: empty remappings, default optimizer, no metadata,
/// the standard output selection, empty libraries, every flag false, no
/// missing-libraries path, no contract restriction.
pub open spec fn default_settings_view() -> SettingsView {
    SettingsView {
        remappings: Seq::<RemappingView>::empty(),
        optimizer: default_optimizer_view(),
        metadata: None,
        output_selection: default_output_selection_view(),
        libraries: Seq::<(Seq<char>, Seq<(Seq<char>, Seq<char>)>)>::empty(),
        is_system: false,
        force_evmla: false,
        missing_libraries_path: None,
        are_libraries_missing: false,
        contracts_to_compile: Seq::<Seq<char>>::empty(),
    }
}

impl Default for Optimizer {
    /// The default optimizer value.
    fn default() -> (r: Self)
        ensures
            r@ == default_optimizer_view(),
    {
        Optimizer {
            enabled: None,
            mode: None,
            details: None,
            fallback_to_optimizing_for_size: None,
            disable_system_request_memoization: false,
        }
    }
}

impl OutputSelection {
    /// An empty output selection.
    pub fn new() -> (r: Self)
        ensures
            r.selection.deep_view() == Seq::<(Seq<char>, Seq<(Seq<char>, Seq<Seq<char>>)>)>::empty(),
    {
        let r = OutputSelection { selection: Vec::new() };
        proof {
            assert(r.selection.deep_view() =~= Seq::<
                (Seq<char>, Seq<(Seq<char>, Seq<Seq<char>>)>),
            >::empty());
        }
        r
    }

    /// The standard output selection set.
    pub fn default_output_selection() -> (r: Self)
        ensures
            r.selection.deep_view() == default_output_selection_view(),
    {
        let mut outputs: Vec<String> = Vec::new();
        outputs.push(String::from_str("abi"));
        outputs.push(String::from_str("evm.bytecode"));
        outputs.push(String::from_str("evm.deployedBytecode"));
        outputs.push(String::from_str("evm.methodIdentifiers"));
        proof {
            assert(outputs.deep_view() =~= seq![
                "abi"@,
                "evm.bytecode"@,
                "evm.deployedBytecode"@,
                "evm.methodIdentifiers"@,
            ]);
        }
        let mut contracts: Vec<(String, Vec<String>)> = Vec::new();
        contracts.push((String::from_str("*"), outputs));
        let mut files: Vec<(String, Vec<(String, Vec<String>)>)> = Vec::new();
        files.push((String::from_str("*"), contracts));
        let r = OutputSelection { selection: files };
        proof {
            assert(r.selection.deep_view() =~~= default_output_selection_view());
        }
        r
    }
}

impl Default for OutputSelection {
    /// The default output selection is empty.
    fn default() -> (r: Self)
        ensures
            r.selection.deep_view() == Seq::<(Seq<char>, Seq<(Seq<char>, Seq<Seq<char>>)>)>::empty(),
    {
        OutputSelection::new()
    }
}

impl Libraries {
    /// An empty library mapping.
    pub fn new() -> (r: Self)
        ensures
            r.libs.deep_view() == Seq::<(Seq<char>, Seq<(Seq<char>, Seq<char>)>)>::empty(),
    {
        let r = Libraries { libs: Vec::new() };
        proof {
            assert(r.libs.deep_view() =~= Seq::<(Seq<char>, Seq<(Seq<char>, Seq<char>)>)>::empty());
        }
        r
    }
}

impl Default for Libraries {
    /// The default library mapping is empty.
    fn default() -> (r: Self)
        ensures
            r.libs.deep_view() == Seq::<(Seq<char>, Seq<(Seq<char>, Seq<char>)>)>::empty(),
    {
        Libraries::new()
    }
}

impl Default for Settings {
    /// The default settings value, fully populated.
    fn default() -> (r: Self)
        ensures
            r@ == default_settings_view(),
    {
        let r = Settings {
            remappings: Vec::new(),
            optimizer: Optimizer::default(),
            metadata: None,
            output_selection: OutputSelection::default_output_selection(),
            libraries: Libraries::new(),
            is_system: false,
            force_evmla: false,
            missing_libraries_path: None,
            are_libraries_missing: false,
            contracts_to_compile: Vec::new(),
        };
        proof {
            assert(r.remappings.deep_view() =~= Seq::<RemappingView>::empty());
            assert(r.contracts_to_compile.deep_view() =~= Seq::<Seq<char>>::empty());
            assert(r@ =~= default_settings_view());
        }
        r
    }
}

/// Any two settings values that meet the default contract are field-for-field
/// identical: the default is stable across calls.
pub proof fn lemma_default_settings_stable(a: Settings, b: Settings)
    requires
        a@ == default_settings_view(),
        b@ == default_settings_view(),
    ensures
        a@ == b@,
{
}

/// Configuration for the zkSolc compiler.
#[derive(Clone, Debug)]
pub struct ZkSolcConfig {
    /// Path to the zksolc binary; may be a URL.  Held opaquely, not validated.
    pub compiler_path: String,
    /// The compiler settings.
    pub settings: Settings,
    /// Contracts to compile; absent means all.
    pub contracts_to_compile: Option<Vec<String>>,
    /// Contracts to avoid compiling.
    pub avoid_contracts: Option<Vec<String>>,
}

/// The mathematical value of a `ZkSolcConfig`.
pub struct ZkSolcConfigView {
    pub compiler_path: Seq<char>,
    pub settings: SettingsView,
    pub contracts_to_compile: Option<Seq<Seq<char>>>,
    pub avoid_contracts: Option<Seq<Seq<char>>>,
}

impl View for ZkSolcConfig {
    type V = ZkSolcConfigView;

    open spec fn view(&self) -> ZkSolcConfigView {
        ZkSolcConfigView {
            compiler_path: self.compiler_path@,
            settings: self.settings@,
            contracts_to_compile: self.contracts_to_compile.deep_view(),
            avoid_contracts: self.avoid_contracts.deep_view(),
        }
    }
}

impl Default for ZkSolcConfig {
    /// The default configuration: empty path, default settings, no contract
    /// restriction or exclusion.
    fn default() -> (r: Self)
        ensures
            r@.compiler_path == Seq::<char>::empty(),
            r@.settings == default_settings_view(),
            r@.contracts_to_compile is None,
            r@.avoid_contracts is None,
    {
        ZkSolcConfig {
            compiler_path: String::new(),
            settings: Settings::default(),
            contracts_to_compile: None,
            avoid_contracts: None,
        }
    }
}

/// A builder for `ZkSolcConfig`: accumulates optional pieces and substitutes
/// defaults for whatever was never set.
#[derive(Debug)]
pub struct ZkSolcConfigBuilder {
    compiler_path: String,
    settings: Option<Settings>,
    contracts_to_compile: Option<Vec<String>>,
    avoid_contracts: Option<Vec<String>>,
}

/// The mathematical value of a `ZkSolcConfigBuilder`.
pub struct ZkSolcConfigBuilderView {
    pub compiler_path: Seq<char>,
    pub settings: Option<SettingsView>,
    pub contracts_to_compile: Option<Seq<Seq<char>>>,
    pub avoid_contracts: Option<Seq<Seq<char>>>,
}

impl View for ZkSolcConfigBuilder {
    type V = ZkSolcConfigBuilderView;

    closed spec fn view(&self) -> ZkSolcConfigBuilderView {
        ZkSolcConfigBuilderView {
            compiler_path: self.compiler_path@,
            settings: self.settings.deep_view(),
            contracts_to_compile: self.contracts_to_compile.deep_view(),
            avoid_contracts: self.avoid_contracts.deep_view(),
        }
    }
}

/// What `build` returns for a builder with value `b`: the accumulated fields,
/// with the default settings where none were set.
pub open spec fn spec_build(b: ZkSolcConfigBuilderView) -> ZkSolcConfigView {
    ZkSolcConfigView {
        compiler_path: b.compiler_path,
        settings: match b.settings {
            Some(s) => s,
            None => default_settings_view(),
        },
        contracts_to_compile: b.contracts_to_compile,
        avoid_contracts: b.avoid_contracts,
    }
}

impl ZkSolcConfigBuilder {
    /// Creates a builder with nothing set.
    pub fn new() -> (r: Self)
        ensures
            r@.compiler_path == Seq::<char>::empty(),
            r@.settings is None,
            r@.contracts_to_compile is None,
            r@.avoid_contracts is None,
    {
        ZkSolcConfigBuilder {
            compiler_path: String::new(),
            settings: None,
            contracts_to_compile: None,
            avoid_contracts: None,
        }
    }

    /// Sets the path to the zksolc binary.
    pub fn compiler_path(self, path: String) -> (r: Self)
        ensures
            r@ == (ZkSolcConfigBuilderView { compiler_path: path@, ..self@ }),
    {
        let r = ZkSolcConfigBuilder { compiler_path: path, ..self };
        proof {
            assert(r@ =~= (ZkSolcConfigBuilderView { compiler_path: path@, ..self@ }));
        }
        r
    }

    /// Sets the compiler settings.
    pub fn settings(self, settings: Settings) -> (r: Self)
        ensures
            r@ == (ZkSolcConfigBuilderView { settings: Some(settings@), ..self@ }),
    {
        let r = ZkSolcConfigBuilder { settings: Some(settings), ..self };
        proof {
            assert(r@ =~= (ZkSolcConfigBuilderView { settings: Some(settings@), ..self@ }));
        }
        r
    }

    /// Restricts compilation to the given contracts.
    pub fn contracts_to_compile(self, contracts: Vec<String>) -> (r: Self)
        ensures
            r@ == (ZkSolcConfigBuilderView {
                contracts_to_compile: Some(contracts.deep_view()),
                ..self@
            }),
    {
        let r = ZkSolcConfigBuilder { contracts_to_compile: Some(contracts), ..self };
        proof {
            assert(r@ =~= (ZkSolcConfigBuilderView {
                contracts_to_compile: Some(contracts.deep_view()),
                ..self@
            }));
        }
        r
    }

    /// Excludes the given contracts from compilation.
    pub fn avoid_contracts(self, contracts: Vec<String>) -> (r: Self)
        ensures
            r@ == (ZkSolcConfigBuilderView { avoid_contracts: Some(contracts.deep_view()), ..self@ }),
    {
        let r = ZkSolcConfigBuilder { avoid_contracts: Some(contracts), ..self };
        proof {
            assert(r@ =~= (ZkSolcConfigBuilderView {
                avoid_contracts: Some(contracts.deep_view()),
                ..self@
            }));
        }
        r
    }

    /// Builds the configuration.  Every field has a default, so this always
    /// succeeds; the `Result` shape is kept for forward compatibility.
    pub fn build(self) -> (r: Result<ZkSolcConfig, String>)
        ensures
            r matches Ok(c) && c@ == spec_build(self@),
    {
        let settings = match self.settings {
            Some(s) => s,
            None => Settings::default(),
        };
        let c = ZkSolcConfig {
            compiler_path: self.compiler_path,
            settings,
            contracts_to_compile: self.contracts_to_compile,
            avoid_contracts: self.avoid_contracts,
        };
        proof {
            assert(c@ =~= spec_build(self@));
        }
        Ok(c)
    }
}

impl Default for ZkSolcConfigBuilder {
    /// The default builder has nothing set.
    fn default() -> (r: Self)
        ensures
            r@.compiler_path == Seq::<char>::empty(),
            r@.settings is None,
            r@.contracts_to_compile is None,
            r@.avoid_contracts is None,
    {
        ZkSolcConfigBuilder::new()
    }
}

/// Builder completeness: whatever combination of fields was set, `build`
/// returns the accumulated values, with `Settings::default()` standing in for
/// settings that were never set.
pub proof fn lemma_builder_completeness(b: ZkSolcConfigBuilderView)
    ensures
        b.settings is None ==> spec_build(b).settings == default_settings_view(),
        b.settings matches Some(s) ==> spec_build(b).settings == s,
        spec_build(b).compiler_path == b.compiler_path,
        spec_build(b).contracts_to_compile == b.contracts_to_compile,
        spec_build(b).avoid_contracts == b.avoid_contracts,
{
}

} // verus!
