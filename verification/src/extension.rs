//! Native extensions: the typed signatures of their functions, the registry
//! that numbers them, the call conventions that the trampoline supports and
//! the JavaScript that binds them into an isolate.

use vstd::prelude::*;
use crate::actions::{join_path, spec_join_path, texts_view};
use crate::json::{find_key, with_member};
use crate::text::{decimal, decimal_text, joined, lowercase_text, same_text};

verus! {

/// The kind of a parameter of a native function.
#[derive(Clone, Copy, Debug, PartialEq, Eq, Structural)]
pub enum ParamType {
    String,
    F64,
    Bool,
    Json,
    Buffer,
}

/// The kind of the result of a native function.
#[derive(Clone, Copy, Debug, PartialEq, Eq, Structural)]
pub enum ReturnType {
    String,
    F64,
    Bool,
    Json,
    Buffer,
    Void,
}

/// The typed signature of a native function.
#[derive(Clone, Debug)]
pub struct Signature {
    pub params: Vec<ParamType>,
    pub ret: ReturnType,
}

/// The parameter kind that a manifest names; an unknown name is `json`.
pub open spec fn spec_parse_type(name: Seq<char>) -> ParamType {
    if name == "string"@ {
        ParamType::String
    } else if name == "f64"@ {
        ParamType::F64
    } else if name == "bool"@ {
        ParamType::Bool
    } else if name == "json"@ {
        ParamType::Json
    } else if name == "buffer"@ {
        ParamType::Buffer
    } else {
        ParamType::Json
    }
}

/// The result kind that a manifest names; an unknown name is `void`.
pub open spec fn spec_parse_return(name: Seq<char>) -> ReturnType {
    if name == "string"@ {
        ReturnType::String
    } else if name == "f64"@ {
        ReturnType::F64
    } else if name == "bool"@ {
        ReturnType::Bool
    } else if name == "json"@ {
        ReturnType::Json
    } else if name == "buffer"@ {
        ReturnType::Buffer
    } else {
        ReturnType::Void
    }
}

/// The parameter kind that `s` names: see [`spec_parse_type`].
pub fn parse_type(s: &str) -> (r: ParamType)
    ensures
        r == spec_parse_type(s@),
{
    if same_text(s, "string") {
        ParamType::String
    } else if same_text(s, "f64") {
        ParamType::F64
    } else if same_text(s, "bool") {
        ParamType::Bool
    } else if same_text(s, "json") {
        ParamType::Json
    } else if same_text(s, "buffer") {
        ParamType::Buffer
    } else {
        ParamType::Json
    }
}

/// The result kind that `s` names: see [`spec_parse_return`].
pub fn parse_return(s: &str) -> (r: ReturnType)
    ensures
        r == spec_parse_return(s@),
{
    if same_text(s, "string") {
        ReturnType::String
    } else if same_text(s, "f64") {
        ReturnType::F64
    } else if same_text(s, "bool") {
        ReturnType::Bool
    } else if same_text(s, "json") {
        ReturnType::Json
    } else if same_text(s, "buffer") {
        ReturnType::Buffer
    } else {
        ReturnType::Void
    }
}

/// The mathematical value of a [`Signature`].
pub struct SignatureView {
    pub params: Seq<ParamType>,
    pub ret: ReturnType,
}

impl View for Signature {
    type V = SignatureView;

    open spec fn view(&self) -> SignatureView {
        SignatureView { params: self.params@, ret: self.ret }
    }
}

/// The kinds that the first `n` names of a manifest declare, each name
/// taken in lower case.
pub open spec fn declared_params(names: Seq<String>, n: nat) -> Seq<ParamType>
    decreases n,
{
    if n == 0 || n > names.len() {
        Seq::empty()
    } else {
        declared_params(names, (n - 1) as nat).push(
            spec_parse_type(lowercase_text(names[n - 1]@)),
        )
    }
}

/// The signature that a manifest declares for a function by the names of
/// its parameter kinds and of its result kind.
pub open spec fn declared_signature(parameters: Seq<String>, result: Seq<char>) -> SignatureView {
    SignatureView {
        params: declared_params(parameters, parameters.len()),
        ret: spec_parse_return(lowercase_text(result)),
    }
}

/// The signature that a manifest declares: see [`declared_signature`].
pub fn signature_of(parameters: &Vec<String>, result: &str) -> (r: Signature)
    ensures
        r@ == declared_signature(parameters@, result@),
{
    let mut params: Vec<ParamType> = Vec::new();
    let mut i: usize = 0;
    while i < parameters.len()
        invariant
            i <= parameters.len(),
            params@ == declared_params(parameters@, i as nat),
        decreases parameters.len() - i,
    {
        let lower = parameters[i].as_str().to_lowercase();
        params.push(parse_type(lower.as_str()));
        i = i + 1;
    }
    let lower = result.to_lowercase();
    Signature { params, ret: parse_return(lower.as_str()) }
}

/// The way in which the trampoline calls a native function.
#[derive(Clone, Copy, Debug, PartialEq, Eq, Structural)]
pub enum CallConvention {
    /// No argument.
    NoArgs,
    /// One argument of the given kind.
    One(ParamType),
    /// Two strings.
    StringString,
    /// A string and a double.
    StringF64,
}

/// The call convention of a signature, for the signatures that the
/// trampoline can call: those without parameter, with one parameter, with
/// two strings, and with a string and a double, whatever the result kind.
pub open spec fn spec_call_convention(signature: SignatureView) -> Option<CallConvention> {
    if signature.params.len() == 0 {
        Some(CallConvention::NoArgs)
    } else if signature.params.len() == 1 {
        Some(CallConvention::One(signature.params[0]))
    } else if signature.params.len() == 2 && signature.params[0] == ParamType::String {
        if signature.params[1] == ParamType::String {
            Some(CallConvention::StringString)
        } else if signature.params[1] == ParamType::F64 {
            Some(CallConvention::StringF64)
        } else {
            None
        }
    } else {
        None
    }
}

/// The call convention of a signature: see [`spec_call_convention`].
pub fn call_convention(signature: &Signature) -> (r: Option<CallConvention>)
    ensures
        r == spec_call_convention(signature@),
{
    let n = signature.params.len();
    if n == 0 {
        Some(CallConvention::NoArgs)
    } else if n == 1 {
        Some(CallConvention::One(signature.params[0]))
    } else if n == 2 {
        match (signature.params[0], signature.params[1]) {
            (ParamType::String, ParamType::String) => Some(CallConvention::StringString),
            (ParamType::String, ParamType::F64) => Some(CallConvention::StringF64),
            _ => None,
        }
    } else {
        None
    }
}

/// A native function of an extension: the address of its symbol and its
/// signature.
#[derive(Clone, Debug)]
pub struct NativeFunction {
    pub address: usize,
    pub signature: Signature,
}

/// A loaded extension: its name, the source of its JavaScript shim, and
/// for each of its native functions the function's index in the registry.
#[derive(Clone, Debug)]
pub struct ExtensionModule {
    pub name: String,
    pub js: String,
    pub native_indices: Vec<(String, usize)>,
}

/// One function that a manifest declares, with the address that its symbol
/// was resolved to, if it was found in the library.
#[derive(Clone, Debug)]
pub struct DeclaredFunction {
    pub name: String,
    pub parameters: Vec<String>,
    pub result: String,
    pub address: Option<usize>,
}

/// One extension as it was read: its name, the source of its shim and the
/// functions of its native library.
#[derive(Clone, Debug)]
pub struct ExtensionManifest {
    pub name: String,
    pub js: String,
    pub functions: Vec<DeclaredFunction>,
}

/// The extensions that were loaded, and their native functions in one
/// table.
pub struct Registry {
    modules: Vec<ExtensionModule>,
    natives: Vec<NativeFunction>,
}

/// The mathematical value of a native function: its address and its
/// signature.
pub type NativeView = (usize, SignatureView);

/// The names and indices of a list of native functions.
pub open spec fn indices_view(indices: Seq<(String, usize)>) -> Seq<(Seq<char>, usize)> {
    Seq::new(indices.len(), |i: int| (indices[i].0@, indices[i].1))
}

/// The values of a table of native functions.
pub open spec fn natives_view(natives: Seq<NativeFunction>) -> Seq<NativeView> {
    Seq::new(natives.len(), |i: int| (natives[i].address, natives[i].signature@))
}

/// The mathematical value of an [`ExtensionModule`].
pub struct ModuleView {
    pub name: Seq<char>,
    pub js: Seq<char>,
    pub native_indices: Seq<(Seq<char>, usize)>,
}

impl View for ExtensionModule {
    type V = ModuleView;

    open spec fn view(&self) -> ModuleView {
        ModuleView {
            name: self.name@,
            js: self.js@,
            native_indices: indices_view(self.native_indices@),
        }
    }
}

/// The values of a list of extensions.
pub open spec fn modules_view(modules: Seq<ExtensionModule>) -> Seq<ModuleView> {
    Seq::new(modules.len(), |i: int| modules[i]@)
}

/// The mathematical value of a [`Registry`].
pub struct RegistryView {
    pub modules: Seq<ModuleView>,
    pub natives: Seq<NativeView>,
}

impl View for Registry {
    type V = RegistryView;

    closed spec fn view(&self) -> RegistryView {
        RegistryView {
            modules: modules_view(self.modules@),
            natives: natives_view(self.natives@),
        }
    }
}

/// The table of native functions after the first `n` declared functions
/// were taken in: each function whose symbol was found goes to the end of
/// the table.
pub open spec fn natives_after(natives: Seq<NativeView>, functions: Seq<DeclaredFunction>, n: nat) -> Seq<
    NativeView,
>
    decreases n,
{
    if n == 0 || n > functions.len() {
        natives
    } else {
        let before = natives_after(natives, functions, (n - 1) as nat);
        match functions[n - 1].address {
            Some(address) => before.push(
                (
                    address,
                    declared_signature(functions[n - 1].parameters@, functions[n - 1].result@),
                ),
            ),
            None => before,
        }
    }
}

/// The indices of an extension's functions after the first `n` declared
/// functions were taken in: each function whose symbol was found is bound
/// to its place in the table.
pub open spec fn indices_after(natives: Seq<NativeView>, functions: Seq<DeclaredFunction>, n: nat) -> Seq<
    (Seq<char>, usize),
>
    decreases n,
{
    if n == 0 || n > functions.len() {
        Seq::empty()
    } else {
        let before = indices_after(natives, functions, (n - 1) as nat);
        match functions[n - 1].address {
            Some(address) => with_member(
                before,
                functions[n - 1].name@,
                natives_after(natives, functions, (n - 1) as nat).len() as usize,
            ),
            None => before,
        }
    }
}

/// The registry after an extension was taken in.
pub open spec fn spec_register(v: RegistryView, manifest: ExtensionManifest) -> RegistryView {
    RegistryView {
        modules: v.modules.push(
            ModuleView {
                name: manifest.name@,
                js: manifest.js@,
                native_indices: indices_after(
                    v.natives,
                    manifest.functions@,
                    manifest.functions@.len(),
                ),
            },
        ),
        natives: natives_after(v.natives, manifest.functions@, manifest.functions@.len()),
    }
}

/// The registry after the first `n` extensions were taken in.
pub open spec fn spec_load(v: RegistryView, manifests: Seq<ExtensionManifest>, n: nat) -> RegistryView
    decreases n,
{
    if n == 0 || n > manifests.len() {
        v
    } else {
        spec_register(spec_load(v, manifests, (n - 1) as nat), manifests[n - 1])
    }
}

/// Whether every index that an extension binds lies in the table.
pub open spec fn registry_wf(v: RegistryView) -> bool {
    forall|m: int, i: int|
        0 <= m < v.modules.len() && 0 <= i < v.modules[m].native_indices.len() ==> (
        #[trigger] v.modules[m].native_indices[i]).1 < v.natives.len()
}

/// Why the trampoline cannot call a native function.
#[derive(Clone, Copy, Debug, PartialEq, Eq, Structural)]
pub enum TrampolineError {
    /// The table has no function of that index.
    UnknownFunction,
    /// The function's symbol has the address zero.
    NullSymbol,
    /// The trampoline has no call convention for the function's signature.
    UnsupportedSignature,
}

fn position_of(indices: &Vec<(String, usize)>, name: &str) -> (at: usize)
    ensures
        at == find_key(indices_view(indices@), name@, 0),
        at <= indices.len(),
{
    let mut i: usize = 0;
    while i < indices.len()
        invariant
            i <= indices.len(),
            find_key(indices_view(indices@), name@, 0) == find_key(
                indices_view(indices@),
                name@,
                i as int,
            ),
        decreases indices.len() - i,
    {
        if same_text(indices[i].0.as_str(), name) {
            return i;
        }
        i = i + 1;
    }
    i
}

impl Registry {
    /// The invariant of the registry: see [`registry_wf`].
    pub open spec fn wf(&self) -> bool {
        registry_wf(self@)
    }

    /// A registry without extensions.
    pub fn new() -> (r: Registry)
        ensures
            r.wf(),
            r@.modules == Seq::<ModuleView>::empty(),
            r@.natives == Seq::<NativeView>::empty(),
    {
        let r = Registry { modules: Vec::new(), natives: Vec::new() };
        assert(r@.modules =~= Seq::empty());
        assert(r@.natives =~= Seq::empty());
        r
    }

    /// The extensions that were loaded.
    pub fn modules(&self) -> (r: &Vec<ExtensionModule>)
        ensures
            modules_view(r@) == self@.modules,
    {
        &self.modules
    }

    /// The number of native functions in the table.
    pub fn native_count(&self) -> (r: usize)
        ensures
            r == self@.natives.len(),
    {
        self.natives.len()
    }

    /// Takes one extension in: see [`spec_register`].
    pub fn register(&mut self, manifest: &ExtensionManifest)
        requires
            old(self).wf(),
        ensures
            final(self).wf(),
            final(self)@ == spec_register(old(self)@, *manifest),
    {
        let ghost start = self@.natives;
        let ghost functions = manifest.functions@;
        let mut indices: Vec<(String, usize)> = Vec::new();
        let mut i: usize = 0;
        assert(indices_view(indices@) =~= Seq::empty());
        while i < manifest.functions.len()
            invariant
                i <= manifest.functions.len(),
                functions == manifest.functions@,
                start == old(self)@.natives,
                self.modules == old(self).modules,
                natives_view(self.natives@) == natives_after(start, functions, i as nat),
                indices_view(indices@) == indices_after(start, functions, i as nat),
                forall|k: int|
                    0 <= k < indices@.len() ==> (#[trigger] indices@[k]).1 < self.natives@.len(),
                start.len() <= self.natives@.len(),
            decreases manifest.functions.len() - i,
        {
            let function = &manifest.functions[i];
            match function.address {
                Some(address) => {
                    let ghost before = natives_view(self.natives@);
                    let ghost bound = indices_view(indices@);
                    let index = self.natives.len();
                    let signature = signature_of(&function.parameters, function.result.as_str());
                    self.natives.push(NativeFunction { address, signature });
                    assert(natives_view(self.natives@) =~= before.push((address, signature@)));
                    let at = position_of(&indices, function.name.as_str());
                    if at < indices.len() {
                        indices[at] = (function.name.clone(), index);
                    } else {
                        indices.push((function.name.clone(), index));
                    }
                    assert(indices_view(indices@) =~= with_member(bound, function.name@, index));
                },
                None => {},
            }
            i = i + 1;
        }
        let ghost before = modules_view(self.modules@);
        let module = ExtensionModule {
            name: manifest.name.clone(),
            js: manifest.js.clone(),
            native_indices: indices,
        };
        self.modules.push(module);
        assert(modules_view(self.modules@) =~= before.push(module@));
        assert(registry_wf(self@)) by {
            assert forall|m: int, k: int|
                0 <= m < self@.modules.len() && 0 <= k
                    < self@.modules[m].native_indices.len() implies (
            #[trigger] self@.modules[m].native_indices[k]).1 < self@.natives.len() by {
                if m < before.len() {
                    assert(self@.modules[m] == old(self)@.modules[m]);
                    assert(old(self)@.modules[m].native_indices[k].1 < old(self)@.natives.len());
                } else {
                    assert(self@.modules[m].native_indices[k] == (
                        indices@[k].0@,
                        indices@[k].1,
                    ));
                }
            }
        }
    }

    /// What the trampoline needs to call the native function of the given
    /// index: its address, its signature and its call convention; or why it
    /// cannot be called.
    pub fn lookup(&self, index: usize) -> (r: Result<
        (usize, &Signature, CallConvention),
        TrampolineError,
    >)
        ensures
            match r {
                Ok((address, signature, convention)) => {
                    &&& index < self@.natives.len()
                    &&& address != 0
                    &&& self@.natives[index as int] == (address, signature@)
                    &&& spec_call_convention(signature@) == Some(convention)
                },
                Err(TrampolineError::UnknownFunction) => index >= self@.natives.len(),
                Err(TrampolineError::NullSymbol) => index < self@.natives.len()
                    && self@.natives[index as int].0 == 0,
                Err(TrampolineError::UnsupportedSignature) => index < self@.natives.len()
                    && self@.natives[index as int].0 != 0 && spec_call_convention(
                    self@.natives[index as int].1,
                ) is None,
            },
    {
        if index >= self.natives.len() {
            return Err(TrampolineError::UnknownFunction);
        }
        let entry = &self.natives[index];
        assert(natives_view(self.natives@)[index as int] == (entry.address, entry.signature@));
        if entry.address == 0 {
            return Err(TrampolineError::NullSymbol);
        }
        match call_convention(&entry.signature) {
            Some(convention) => Ok((entry.address, &entry.signature, convention)),
            None => Err(TrampolineError::UnsupportedSignature),
        }
    }
}

/// Takes the extensions that were read into the registry, in their order:
/// see [`spec_load`].
pub fn load_project_extensions(registry: &mut Registry, manifests: &Vec<ExtensionManifest>)
    requires
        old(registry).wf(),
    ensures
        final(registry).wf(),
        final(registry)@ == spec_load(old(registry)@, manifests@, manifests@.len()),
{
    let mut i: usize = 0;
    while i < manifests.len()
        invariant
            i <= manifests.len(),
            registry.wf(),
            registry@ == spec_load(old(registry)@, manifests@, i as nat),
        decreases manifests.len() - i,
    {
        registry.register(&manifests[i]);
        i = i + 1;
    }
}

/// The source of the JavaScript function that stands for the native
/// function of the given index: it hands its arguments to the trampoline.
pub open spec fn spec_native_wrapper(index: nat) -> Seq<char> {
    "(function(...args) { return __titan_invoke_native("@ + decimal(index) + ", args); })"@
}

/// The source of the JavaScript function that stands for the native
/// function of the given index: see [`spec_native_wrapper`].
pub fn native_wrapper_source(index: usize) -> (r: String)
    ensures
        r@ == spec_native_wrapper(index as nat),
{
    let number = decimal_text(index as u64);
    let head = joined("(function(...args) { return __titan_invoke_native(", number.as_str());
    joined(head.as_str(), ", args); })")
}

/// The source of the JavaScript function that evaluates a shim in a scope
/// of its own: it takes the `t` surface and the native wrappers, and gives
/// back what the shim exports.
pub open spec fn spec_shim_source(js: Seq<char>) -> Seq<char> {
    "(function(t, native) { var module = { exports: {} }; var exports = module.exports; "@ + js
        + " return module.exports; })"@
}

/// The source of the JavaScript function that evaluates a shim: see
/// [`spec_shim_source`].
pub fn shim_source(js: &str) -> (r: String)
    ensures
        r@ == spec_shim_source(js@),
{
    let head = joined(
        "(function(t, native) { var module = { exports: {} }; var exports = module.exports; ",
        js,
    );
    joined(head.as_str(), " return module.exports; })")
}

/// The directories in which extensions are looked for: the production
/// directory `.ext` and the module directory `node_modules` under the
/// project root, and the module directory beside the project root, each
/// where it is present; the module directory under the project root where
/// none is present.
pub open spec fn spec_discovery_roots(
    root: Seq<char>,
    parent: Option<Seq<char>>,
    production_present: bool,
    modules_present: bool,
    parent_modules_present: bool,
) -> Seq<Seq<char>> {
    let production = if production_present {
        seq![spec_join_path(root, ".ext"@)]
    } else {
        Seq::empty()
    };
    let local = if modules_present {
        production.push(spec_join_path(root, "node_modules"@))
    } else {
        production
    };
    let all = match parent {
        Some(dir) => if parent_modules_present {
            local.push(spec_join_path(dir, "node_modules"@))
        } else {
            local
        },
        None => local,
    };
    if all.len() == 0 {
        seq![spec_join_path(root, "node_modules"@)]
    } else {
        all
    }
}

/// The directories in which extensions are looked for: see
/// [`spec_discovery_roots`].
pub fn discovery_roots(
    root: &str,
    parent: Option<&str>,
    production_present: bool,
    modules_present: bool,
    parent_modules_present: bool,
) -> (r: Vec<String>)
    ensures
        texts_view(r@) == spec_discovery_roots(
            root@,
            match parent {
                Some(dir) => Some(dir@),
                None => None,
            },
            production_present,
            modules_present,
            parent_modules_present,
        ),
{
    let mut out: Vec<String> = Vec::new();
    if production_present {
        out.push(join_path(root, ".ext"));
    }
    if modules_present {
        out.push(join_path(root, "node_modules"));
    }
    match parent {
        Some(dir) => {
            if parent_modules_present {
                out.push(join_path(dir, "node_modules"));
            }
        },
        None => {},
    }
    if out.len() == 0 {
        out.push(join_path(root, "node_modules"));
    }
    assert(texts_view(out@) =~= spec_discovery_roots(
        root@,
        match parent {
            Some(dir) => Some(dir@),
            None => None,
        },
        production_present,
        modules_present,
        parent_modules_present,
    ));
    out
}

} // verus!
