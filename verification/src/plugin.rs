//! Plugins and the hook pipeline. A plugin implements only the hook points
//! it needs; the orchestrator invokes each hook over the registered plugins
//! in registration order. Hooks that only contribute additively — the
//! requirement bits — are order-independent by construction; `render`
//! composes in order.

use vstd::prelude::*;
use vstd::string::StrSliceExecFns;
use vstd::string::StringExecFns;

use crate::chunk::ChunkUkey;
use crate::compilation::Compilation;
use crate::compilation::EntryItem;
use crate::compilation::spec_chunk_modules;
use crate::dependency::BoxDependency;
use crate::dependency::ContainerEntryDependency;
use crate::error::CoreError;
use crate::graph::spec_module_index;
use crate::graph::lemma_module_index_bound;
use crate::ident::DependencyId;
use crate::ident::Identifier;
use crate::module::BoxModule;
use crate::runtime_globals::RuntimeGlobals;
use crate::strutil::spec_dec_rep;
use crate::strutil::u64_to_dec;

verus! {

/// The accumulator plugins contribute chunk-hash state into: what it has
/// absorbed, in order, decides the chunk's hash.
#[derive(Debug)]
pub struct PluginHasher {
    pub data: String,
}

impl PluginHasher {
    /// A fresh accumulator.
    pub fn new() -> (r: PluginHasher)
        ensures
            r.data@.len() == 0,
    {
        PluginHasher { data: String::new() }
    }

    /// Absorbs one piece of text.
    pub fn write_str(&mut self, piece: &str)
        ensures
            final(self).data@ == old(self).data@ + piece@,
    {
        self.data.append(piece);
    }
}

/// Reads the configured library name: the name when one is set, nothing
/// otherwise.
pub fn normalize_name(library: &Option<String>) -> (r: Result<Option<String>, CoreError>)
    ensures
        match r {
            Ok(o) => match library {
                Some(n) => o matches Some(s) && s@ == n@,
                None => o is None,
            },
            Err(_) => false,
        },
{
    match library {
        Some(n) => Ok(Some(n.clone())),
        None => Ok(None),
    }
}

/// The generated variable name standing in for the external module at the
/// given position.
pub open spec fn spec_external_name(i: nat) -> Seq<char> {
    "__WEBPACK_EXTERNAL_MODULE_"@ + spec_dec_rep(i) + "__"@
}

/// Renders the variable name of the external module at the given position.
pub fn external_name(i: usize) -> (r: String)
    ensures
        r@ == spec_external_name(i as nat),
{
    let mut out = String::from_str("__WEBPACK_EXTERNAL_MODULE_");
    let d = u64_to_dec(i as u64);
    out.append(d.as_str());
    out.append("__");
    proof {
        assert(out@ =~= spec_external_name(i as nat));
    }
    out
}

/// The requests of the chunk's external modules of the `system` kind, in
/// module order, at the spec level.
pub open spec fn spec_system_requests(modules: Seq<BoxModule>, idents: Seq<Identifier>) -> Seq<
    Seq<char>,
>
    decreases idents.len(),
{
    if idents.len() == 0 {
        Seq::empty()
    } else {
        let rest = spec_system_requests(modules, idents.drop_first());
        match spec_module_index(modules, idents.first()@) {
            Some(i) => match modules[i] {
                BoxModule::External(m) => if m.external_type@ == "system"@ {
                    seq![m.request@] + rest
                } else {
                    rest
                },
                _ => rest,
            },
            None => rest,
        }
    }
}

/// Collects the requests of the chunk's `system` external modules, in
/// module order.
pub fn system_external_requests(
    graph: &crate::graph::ModuleGraph,
    idents: &Vec<Identifier>,
) -> (r: Vec<String>)
    ensures
        r@.len() == spec_system_requests(graph.modules@, idents@).len(),
        forall|k: int|
            0 <= k < r@.len() ==> (#[trigger] r@[k])@ == spec_system_requests(
                graph.modules@,
                idents@,
            )[k],
{
    let ghost whole = spec_system_requests(graph.modules@, idents@);
    let mut out: Vec<String> = Vec::new();
    let mut i: usize = 0;
    proof {
        assert(idents@.skip(0) =~= idents@);
    }
    while i < idents.len()
        invariant
            i <= idents@.len(),
            whole == spec_system_requests(graph.modules@, idents@),
            out@.len() + spec_system_requests(graph.modules@, idents@.skip(i as int)).len()
                == whole.len(),
            forall|k: int| 0 <= k < out@.len() ==> (#[trigger] out@[k])@ == whole[k],
            whole.skip(out@.len() as int) =~= spec_system_requests(
                graph.modules@,
                idents@.skip(i as int),
            ),
        decreases idents@.len() - i,
    {
        let ghost before = out@.len() as int;
        proof {
            assert(idents@.skip(i as int).drop_first() =~= idents@.skip(i + 1));
            assert(idents@.skip(i as int).first() == idents@[i as int]);
        }
        match graph.module_index_by_identifier(idents[i].as_string()) {
            Some(mi) => {
                proof {
                    lemma_module_index_bound(graph.modules@, idents@[i as int]@);
                }
                match graph.modules[mi].as_external_module() {
                    Some(m) => {
                        let system = String::from_str("system");
                        if m.get_external_type().eq(&system) {
                            out.push(m.request.clone());
                            proof {
                                assert(whole.skip(before)[0] == whole[before]);
                                assert(whole.skip(before).drop_first() =~= whole.skip(before + 1));
                            }
                        }
                    },
                    None => {},
                }
            },
            None => {},
        }
        i = i + 1;
    }
    proof {
        assert(spec_system_requests(graph.modules@, idents@.skip(idents@.len() as int))
            =~= Seq::<Seq<char>>::empty());
    }
    out
}

/// The views of a list of strings.
pub open spec fn spec_strings_view(s: Seq<String>) -> Seq<Seq<char>> {
    s.map_values(|x: String| x@)
}

/// The bracketed, comma-joined array of quoted requests.
pub open spec fn spec_dep_array_items(reqs: Seq<Seq<char>>) -> Seq<char>
    decreases reqs.len(),
{
    if reqs.len() == 0 {
        Seq::empty()
    } else if reqs.len() == 1 {
        "\""@ + reqs.first() + "\""@
    } else {
        spec_dep_array_items(reqs.drop_last()) + ","@ + "\""@ + reqs.last() + "\""@
    }
}

/// The external-dependency array literal.
pub open spec fn spec_dep_array(reqs: Seq<Seq<char>>) -> Seq<char> {
    "["@ + spec_dep_array_items(reqs) + "]"@
}

/// Renders the external-dependency array literal.
pub fn external_dep_array(reqs: &Vec<String>) -> (r: String)
    ensures
        r@ == spec_dep_array(spec_strings_view(reqs@)),
{
    let mut out = String::from_str("[");
    let mut i: usize = 0;
    while i < reqs.len()
        invariant
            i <= reqs@.len(),
            out@ == "["@ + spec_dep_array_items(spec_strings_view(reqs@).take(i as int)),
        decreases reqs@.len() - i,
    {
        if i > 0 {
            out.append(",");
        }
        out.append("\"");
        out.append(reqs[i].as_str());
        out.append("\"");
        proof {
            let v = spec_strings_view(reqs@);
            assert(v.take(i + 1).drop_last() =~= v.take(i as int));
            assert(v.take(i + 1).last() == v[i as int]);
            assert(out@ =~= "["@ + spec_dep_array_items(v.take(i + 1)));
        }
        i = i + 1;
    }
    out.append("]");
    proof {
        assert(spec_strings_view(reqs@).take(reqs@.len() as int) =~= spec_strings_view(reqs@));
        assert(out@ =~= spec_dep_array(spec_strings_view(reqs@)));
    }
    out
}

/// The declaration of the variable for the external module at one position.
pub open spec fn spec_var_decl(i: nat) -> Seq<char> {
    "var "@ + spec_external_name(i) + " = {};"@
}

/// The declarations of the first `n` external-module variables, one line
/// each.
pub open spec fn spec_var_decls(n: nat) -> Seq<char>
    decreases n,
{
    if n == 0 {
        Seq::empty()
    } else if n == 1 {
        spec_var_decl(0)
    } else {
        spec_var_decls((n - 1) as nat) + "\n"@ + spec_var_decl((n - 1) as nat)
    }
}

/// The marking of one external-module variable as an ES module.
pub open spec fn spec_var_init(i: nat) -> Seq<char> {
    "Object.defineProperty( "@ + spec_external_name(i) + " , \"__esModule\", { value: true });"@
}

/// The markings of the first `n` external-module variables, one line each.
pub open spec fn spec_var_inits(n: nat) -> Seq<char>
    decreases n,
{
    if n == 0 {
        Seq::empty()
    } else if n == 1 {
        spec_var_init(0)
    } else {
        spec_var_inits((n - 1) as nat) + "\n"@ + spec_var_init((n - 1) as nat)
    }
}

/// The setter copying a loaded external module into its variable.
pub open spec fn spec_setter(i: nat) -> Seq<char> {
    "function(module) {Object.keys(module).forEach(function(key) {\n "@ + spec_external_name(i)
        + "[key] = module[key]; })}"@
}

/// The setters of the first `n` external-module variables, one line each.
pub open spec fn spec_setters(n: nat) -> Seq<char>
    decreases n,
{
    if n == 0 {
        Seq::empty()
    } else if n == 1 {
        spec_setter(0)
    } else {
        spec_setters((n - 1) as nat) + "\n"@ + spec_setter((n - 1) as nat)
    }
}

/// Renders `n` lines, one per external module, from the per-position
/// renderers, matching the corresponding specification fold.
fn render_var_decls(n: usize) -> (r: String)
    ensures
        r@ == spec_var_decls(n as nat),
{
    let mut out = String::new();
    let mut i: usize = 0;
    while i < n
        invariant
            i <= n,
            out@ == spec_var_decls(i as nat),
        decreases n - i,
    {
        if i > 0 {
            out.append("\n");
        }
        out.append("var ");
        let name = external_name(i);
        out.append(name.as_str());
        out.append(" = {};");
        proof {
            assert(out@ =~= spec_var_decls((i + 1) as nat));
        }
        i = i + 1;
    }
    out
}

/// Renders the ES-module markings of `n` external-module variables.
fn render_var_inits(n: usize) -> (r: String)
    ensures
        r@ == spec_var_inits(n as nat),
{
    let mut out = String::new();
    let mut i: usize = 0;
    while i < n
        invariant
            i <= n,
            out@ == spec_var_inits(i as nat),
        decreases n - i,
    {
        if i > 0 {
            out.append("\n");
        }
        out.append("Object.defineProperty( ");
        let name = external_name(i);
        out.append(name.as_str());
        out.append(" , \"__esModule\", { value: true });");
        proof {
            assert(out@ =~= spec_var_inits((i + 1) as nat));
        }
        i = i + 1;
    }
    out
}

/// Renders the setters of `n` external-module variables.
fn render_setters(n: usize) -> (r: String)
    ensures
        r@ == spec_setters(n as nat),
{
    let mut out = String::new();
    let mut i: usize = 0;
    while i < n
        invariant
            i <= n,
            out@ == spec_setters(i as nat),
        decreases n - i,
    {
        if i > 0 {
            out.append("\n");
        }
        out.append("function(module) {Object.keys(module).forEach(function(key) {\n ");
        let name = external_name(i);
        out.append(name.as_str());
        out.append("[key] = module[key]; })}");
        proof {
            assert(out@ =~= spec_setters((i + 1) as nat));
        }
        i = i + 1;
    }
    out
}

/// The name part of the register call: the quoted library name followed by
/// a comma when one is configured, nothing otherwise.
pub open spec fn spec_register_name(library: Option<String>) -> Seq<char> {
    match library {
        Some(n) => "\""@ + n@ + "\", "@,
        None => Seq::empty(),
    }
}

/// The whole wrapped chunk: a `System.register` call naming the library and
/// the external requests, declaring and filling a variable per external
/// module, and executing the chunk's own source under the export callback.
pub open spec fn spec_system_render(
    library: Option<String>,
    reqs: Seq<Seq<char>>,
    src: Seq<char>,
) -> Seq<char> {
    let n = reqs.len();
    "System.register("@ + spec_register_name(library) + spec_dep_array(reqs)
        + ", function(__WEBPACK_DYNAMIC_EXPORT__, __system_context__) {\n"@ + (if n > 0 {
        spec_var_decls(n) + "\n"@ + spec_var_inits(n) + "\n"@
    } else {
        Seq::empty()
    }) + "return {\n"@ + (if n > 0 {
        spec_setters(n) + ",\n"@
    } else {
        Seq::empty()
    }) + "execute: function() {\nconsole.log(__WEBPACK_DYNAMIC_EXPORT__);__WEBPACK_DYNAMIC_EXPORT__("@
        + src + ")}\n}\n\n})"@
}

/// The plugin that wraps every chunk for the `System` module loader.
#[derive(Debug)]
pub struct SystemLibraryPlugin {}

impl Default for SystemLibraryPlugin {
    /// The plugin has no configuration.
    fn default() -> (r: SystemLibraryPlugin) {
        SystemLibraryPlugin {}
    }
}

impl SystemLibraryPlugin {
    /// A fresh plugin.
    pub fn new() -> (r: SystemLibraryPlugin) {
        SystemLibraryPlugin {}
    }

    /// The plugin's registered name.
    pub fn name(&self) -> (r: &'static str)
        ensures
            r@ == "SystemLibraryPlugin"@,
    {
        "SystemLibraryPlugin"
    }

    /// The loader wrapper needs the runtime to return the exports from its
    /// startup call; nothing is ever removed from the set.
    pub fn additional_chunk_runtime_requirements(&self, requirements: &mut RuntimeGlobals) -> (r:
        Result<(), CoreError>)
        ensures
            final(requirements).bits == old(requirements).bits
                | crate::runtime_globals::RETURN_EXPORTS_FROM_RUNTIME,
            r is Ok,
    {
        requirements.insert(crate::runtime_globals::RETURN_EXPORTS_FROM_RUNTIME);
        Ok(())
    }

    /// Wraps the chunk's source in the `System.register` call, declaring a
    /// variable for each of the chunk's `system` external modules.
    pub fn render(&self, compilation: &Compilation, chunk: ChunkUkey, source: &String) -> (r:
        Result<Option<String>, CoreError>)
        ensures
            match r {
                Ok(o) => o matches Some(s) && s@ == spec_system_render(
                    compilation.output_options.library,
                    spec_system_requests(
                        compilation.module_graph.modules@,
                        spec_chunk_modules(compilation.chunk_graph.chunk_modules@, chunk),
                    ),
                    source@,
                ),
                Err(_) => false,
            },
    {
        let name = match normalize_name(&compilation.output_options.library) {
            Ok(n) => n,
            Err(e) => {
                return Err(e);
            },
        };
        let idents = compilation.chunk_graph.get_chunk_module_identifiers(chunk);
        proof {
            assert(spec_system_requests(compilation.module_graph.modules@, idents@)
                =~= spec_system_requests(
                compilation.module_graph.modules@,
                spec_chunk_modules(compilation.chunk_graph.chunk_modules@, chunk),
            )) by {
                lemma_system_requests_views(
                    compilation.module_graph.modules@,
                    idents@,
                    spec_chunk_modules(compilation.chunk_graph.chunk_modules@, chunk),
                );
            }
        }
        let reqs = system_external_requests(&compilation.module_graph, &idents);
        proof {
            assert(spec_strings_view(reqs@) =~= spec_system_requests(
                compilation.module_graph.modules@,
                spec_chunk_modules(compilation.chunk_graph.chunk_modules@, chunk),
            ));
        }
        let n = reqs.len();
        let mut out = String::from_str("System.register(");
        match &name {
            Some(nm) => {
                out.append("\"");
                out.append(nm.as_str());
                out.append("\", ");
            },
            None => {},
        }
        let arr = external_dep_array(&reqs);
        out.append(arr.as_str());
        out.append(", function(__WEBPACK_DYNAMIC_EXPORT__, __system_context__) {\n");
        if n > 0 {
            let decls = render_var_decls(n);
            out.append(decls.as_str());
            out.append("\n");
            let inits = render_var_inits(n);
            out.append(inits.as_str());
            out.append("\n");
        }
        out.append("return {\n");
        if n > 0 {
            let setters = render_setters(n);
            out.append(setters.as_str());
            out.append(",\n");
        }
        out.append(
            "execute: function() {\nconsole.log(__WEBPACK_DYNAMIC_EXPORT__);__WEBPACK_DYNAMIC_EXPORT__(",
        );
        out.append(source.as_str());
        out.append(")}\n}\n\n})");
        proof {
            assert(out@ =~= spec_system_render(
                compilation.output_options.library,
                spec_strings_view(reqs@),
                source@,
            ));
        }
        Ok(Some(out))
    }

    /// Contributes the plugin's name and the configured library into the
    /// chunk hash, so a library change re-renders the chunk.
    pub fn js_chunk_hash(&self, compilation: &Compilation, hasher: &mut PluginHasher) -> (r: Result<
        (),
        CoreError,
    >)
        ensures
            final(hasher).data@ == old(hasher).data@ + "SystemLibraryPlugin"@ + (
            match compilation.output_options.library {
                Some(n) => n@,
                None => Seq::<char>::empty(),
            }),
            r is Ok,
    {
        hasher.write_str("SystemLibraryPlugin");
        match &compilation.output_options.library {
            Some(n) => {
                hasher.write_str(n.as_str());
            },
            None => {},
        }
        proof {
            assert(hasher.data@ =~= old(hasher).data@ + "SystemLibraryPlugin"@ + (
            match compilation.output_options.library {
                Some(n) => n@,
                None => Seq::<char>::empty(),
            }));
        }
        Ok(())
    }
}

/// The requests depend only on the identifier texts, not on the identifier
/// values carrying them.
pub proof fn lemma_system_requests_views(
    modules: Seq<BoxModule>,
    a: Seq<Identifier>,
    b: Seq<Identifier>,
)
    requires
        a.len() == b.len(),
        forall|k: int| 0 <= k < a.len() ==> (#[trigger] a[k])@ == b[k]@,
    ensures
        spec_system_requests(modules, a) =~= spec_system_requests(modules, b),
    decreases a.len(),
{
    if a.len() > 0 {
        assert(a.first()@ == b.first()@);
        assert(forall|k: int|
            0 <= k < a.drop_first().len() ==> (#[trigger] a.drop_first()[k])@ == b.drop_first()[k]@);
        lemma_system_requests_views(modules, a.drop_first(), b.drop_first());
    }
}

/// The options of the container plugin: what the container exposes and how
/// its entry chunk is named.
#[derive(Debug)]
pub struct ContainerPluginOptions {
    /// The modules the container exposes.
    pub exposes: String,
    /// The filename of the container's entry chunk, when configured.
    pub filename: Option<String>,
    /// The container's name.
    pub name: String,
    /// The share scope shared with the host.
    pub share_scope: Option<String>,
}

impl Default for ContainerPluginOptions {
    /// Empty options: nothing exposed, nothing named.
    fn default() -> (r: ContainerPluginOptions)
        ensures
            r.exposes@.len() == 0,
            r.filename is None,
            r.name@.len() == 0,
            r.share_scope is None,
    {
        ContainerPluginOptions {
            exposes: String::new(),
            filename: None,
            name: String::new(),
            share_scope: None,
        }
    }
}

/// Whether the compilation's entry at position `k` is the container entry:
/// named "a", importing nothing, with no runtime chunk, its dependency the
/// container entry dependency named "b" carrying the graph-assigned id.
pub open spec fn spec_container_entry_at(c: Compilation, k: int) -> bool {
    &&& 0 <= k < c.entries@.len()
    &&& c.entries@[k].0@ == "a"@
    &&& c.entries@[k].2.import@.len() == 0
    &&& c.entries@[k].2.runtime is None
    &&& {
        let id = c.entries@[k].1;
        &&& (id.index as int) < c.module_graph.dependencies@.len()
        &&& match c.module_graph.dependencies@[id.index as int] {
            crate::dependency::BoxDependency::ContainerEntry(d) => d.name@ == "b"@ && d.id
                == Some(id),
            _ => false,
        }
    }
}

/// A container entry survives later seeding: growing the entry and
/// dependency stores without touching their prefixes keeps it intact.
pub proof fn lemma_container_entry_preserved(pre: Compilation, post: Compilation, k: int)
    requires
        spec_container_entry_at(pre, k),
        post.entries@.len() >= pre.entries@.len(),
        forall|j: int| 0 <= j < pre.entries@.len() ==> post.entries@[j] == pre.entries@[j],
        post.module_graph.dependencies@.len() >= pre.module_graph.dependencies@.len(),
        forall|j: int|
            0 <= j < pre.module_graph.dependencies@.len() ==> post.module_graph.dependencies@[j]
                == pre.module_graph.dependencies@[j],
    ensures
        spec_container_entry_at(post, k),
{
}

/// The plugin that seeds a container entry point into each compilation.
#[derive(Debug)]
pub struct ContainerPlugin {
    pub options: ContainerPluginOptions,
}

impl ContainerPlugin {
    /// A container plugin with the given options.
    pub fn new(options: ContainerPluginOptions) -> (r: ContainerPlugin)
        ensures
            r.options == options,
    {
        ContainerPlugin { options }
    }

    /// Static registration at setup; the plugin registers nothing here.
    pub fn apply(&mut self) -> (r: Result<(), CoreError>)
        ensures
            *final(self) == *old(self),
            r is Ok,
    {
        let _options = &self.options;
        Ok(())
    }

    /// Once per compilation: seeds exactly the container's entry — named
    /// "a", importing nothing — whose dependency is the container entry
    /// dependency named "b". Everything already recorded stays.
    pub fn compilation(&mut self, compilation: &mut Compilation) -> (r: Result<(), CoreError>)
        requires
            old(compilation).module_graph.wf(),
        ensures
            *final(self) == *old(self),
            final(compilation).module_graph.wf(),
            final(compilation).entries@.len() == old(compilation).entries@.len() + 1,
            final(compilation).module_graph.dependencies@.len() == old(compilation).module_graph.dependencies@.len() + 1,
            forall|j: int|
                0 <= j < old(compilation).entries@.len() ==> final(compilation).entries@[j] == old(compilation).entries@[j],
            forall|j: int|
                0 <= j < old(compilation).module_graph.dependencies@.len() ==> final(compilation).module_graph.dependencies@[j] == old(compilation).module_graph.dependencies@[j],
            final(compilation).module_graph.modules@ == old(compilation).module_graph.modules@,
            spec_container_entry_at(*final(compilation), old(compilation).entries@.len() as int),
            r is Ok,
    {
        compilation.add_entry(
            String::from_str("a"),
            BoxDependency::ContainerEntry(
                ContainerEntryDependency { name: String::from_str("b"), id: None },
            ),
            EntryItem { import: Vec::new(), runtime: None },
        );
        Ok(())
    }
}

/// A registered plugin of any of the known kinds.
#[derive(Debug)]
pub enum Plugin {
    Container(ContainerPlugin),
    SystemLibrary(SystemLibraryPlugin),
}

/// The requirement bits a plugin's additional-requirements hook
/// contributes.
pub open spec fn spec_plugin_requirement_bits(p: Plugin) -> u64 {
    match p {
        Plugin::Container(_) => 0,
        Plugin::SystemLibrary(_) => crate::runtime_globals::RETURN_EXPORTS_FROM_RUNTIME,
    }
}

/// The requirement bits accumulated over a plugin list, in order.
pub open spec fn spec_plugin_requirements_fold(ps: Seq<Plugin>, acc: u64) -> u64
    decreases ps.len(),
{
    if ps.len() == 0 {
        acc
    } else {
        spec_plugin_requirements_fold(ps.drop_first(), acc | spec_plugin_requirement_bits(ps.first()))
    }
}

impl Plugin {
    /// Lets the plugin inject extra requirement bits; a plugin without the
    /// hook leaves the set unchanged.
    pub fn additional_chunk_runtime_requirements(&self, requirements: &mut RuntimeGlobals) -> (r:
        Result<(), CoreError>)
        ensures
            final(requirements).bits == old(requirements).bits | spec_plugin_requirement_bits(
                *self,
            ),
            r is Ok,
    {
        match self {
            Plugin::Container(_) => {
                proof {
                    let b = requirements.bits;
                    assert(b | 0 == b) by (bit_vector);
                }
                Ok(())
            },
            Plugin::SystemLibrary(p) => p.additional_chunk_runtime_requirements(requirements),
        }
    }
}

/// Runs the additional-requirements hook over the plugins in registration
/// order; the result is the union of the starting set and every plugin's
/// contribution, so the accumulation is order-independent.
pub fn run_additional_chunk_runtime_requirements(
    plugins: &Vec<Plugin>,
    requirements: &mut RuntimeGlobals,
) -> (r: Result<(), CoreError>)
    ensures
        final(requirements).bits == spec_plugin_requirements_fold(
            plugins@,
            old(requirements).bits,
        ),
        r is Ok,
{
    let mut i: usize = 0;
    proof {
        assert(plugins@.skip(0) =~= plugins@);
    }
    while i < plugins.len()
        invariant
            i <= plugins@.len(),
            spec_plugin_requirements_fold(plugins@, old(requirements).bits)
                == spec_plugin_requirements_fold(plugins@.skip(i as int), requirements.bits),
        decreases plugins@.len() - i,
    {
        proof {
            assert(plugins@.skip(i as int).drop_first() =~= plugins@.skip(i + 1));
            assert(plugins@.skip(i as int).first() == plugins@[i as int]);
        }
        match plugins[i].additional_chunk_runtime_requirements(requirements) {
            Ok(_) => {},
            Err(e) => {
                return Err(e);
            },
        }
        i = i + 1;
    }
    Ok(())
}

/// The runtime requirements a chunk's modules declare, accumulated in
/// module order, at the spec level.
pub open spec fn spec_modules_requirements_fold(
    modules: Seq<BoxModule>,
    idents: Seq<Identifier>,
    acc: u64,
) -> u64
    decreases idents.len(),
{
    if idents.len() == 0 {
        acc
    } else {
        let bits = match spec_module_index(modules, idents.first()@) {
            Some(i) => crate::module::spec_module_cg_bits(modules[i]),
            None => 0,
        };
        spec_modules_requirements_fold(modules, idents.drop_first(), acc | bits)
    }
}

/// Accumulates a chunk's runtime requirements: the union of what every one
/// of its modules declares in code generation and of what every plugin
/// injects, starting from the empty set.
pub fn chunk_runtime_requirements(
    compilation: &Compilation,
    chunk: ChunkUkey,
    plugins: &Vec<Plugin>,
) -> (r: Result<RuntimeGlobals, CoreError>)
    ensures
        match r {
            Ok(g) => g.bits == spec_plugin_requirements_fold(
                plugins@,
                spec_modules_requirements_fold(
                    compilation.module_graph.modules@,
                    spec_chunk_modules(compilation.chunk_graph.chunk_modules@, chunk),
                    0,
                ),
            ),
            Err(_) => false,
        },
{
    let idents = compilation.chunk_graph.get_chunk_module_identifiers(chunk);
    proof {
        lemma_modules_requirements_views(
            compilation.module_graph.modules@,
            idents@,
            spec_chunk_modules(compilation.chunk_graph.chunk_modules@, chunk),
            0,
        );
    }
    let mut requirements = RuntimeGlobals::new();
    let mut i: usize = 0;
    proof {
        assert(idents@.skip(0) =~= idents@);
    }
    while i < idents.len()
        invariant
            i <= idents@.len(),
            spec_modules_requirements_fold(compilation.module_graph.modules@, idents@, 0)
                == spec_modules_requirements_fold(
                compilation.module_graph.modules@,
                idents@.skip(i as int),
                requirements.bits,
            ),
        decreases idents@.len() - i,
    {
        proof {
            assert(idents@.skip(i as int).drop_first() =~= idents@.skip(i + 1));
            assert(idents@.skip(i as int).first() == idents@[i as int]);
        }
        match compilation.module_graph.module_index_by_identifier(idents[i].as_string()) {
            Some(mi) => {
                proof {
                    lemma_module_index_bound(
                        compilation.module_graph.modules@,
                        idents@[i as int]@,
                    );
                }
                let cg = match compilation.module_graph.modules[mi].code_generation() {
                    Ok(cg) => cg,
                    Err(e) => {
                        return Err(e);
                    },
                };
                requirements = requirements.union(&cg.runtime_requirements);
            },
            None => {
                proof {
                    let b = requirements.bits;
                    assert(b | 0 == b) by (bit_vector);
                }
            },
        }
        i = i + 1;
    }
    match run_additional_chunk_runtime_requirements(plugins, &mut requirements) {
        Ok(_) => {},
        Err(e) => {
            return Err(e);
        },
    }
    Ok(requirements)
}

/// The accumulated requirements depend only on the identifier texts.
pub proof fn lemma_modules_requirements_views(
    modules: Seq<BoxModule>,
    a: Seq<Identifier>,
    b: Seq<Identifier>,
    acc: u64,
)
    requires
        a.len() == b.len(),
        forall|k: int| 0 <= k < a.len() ==> (#[trigger] a[k])@ == b[k]@,
    ensures
        spec_modules_requirements_fold(modules, a, acc) == spec_modules_requirements_fold(
            modules,
            b,
            acc,
        ),
    decreases a.len(),
{
    if a.len() > 0 {
        assert(a.first()@ == b.first()@);
        assert(forall|k: int|
            0 <= k < a.drop_first().len() ==> (#[trigger] a.drop_first()[k])@ == b.drop_first()[k]@);
        let bits = match spec_module_index(modules, a.first()@) {
            Some(i) => crate::module::spec_module_cg_bits(modules[i]),
            None => 0u64,
        };
        lemma_modules_requirements_views(modules, a.drop_first(), b.drop_first(), acc | bits);
    }
}


/// What the chunk's source becomes after one plugin's render hook: the
/// system-library plugin wraps it; a plugin without the hook leaves it.
pub open spec fn spec_plugin_render(
    p: Plugin,
    compilation: Compilation,
    chunk: ChunkUkey,
    src: Seq<char>,
) -> Seq<char> {
    match p {
        Plugin::Container(_) => src,
        Plugin::SystemLibrary(_) => spec_system_render(
            compilation.output_options.library,
            spec_system_requests(
                compilation.module_graph.modules@,
                spec_chunk_modules(compilation.chunk_graph.chunk_modules@, chunk),
            ),
            src,
        ),
    }
}

/// What the source becomes after every plugin's render hook, in
/// registration order.
pub open spec fn spec_render_fold(
    ps: Seq<Plugin>,
    compilation: Compilation,
    chunk: ChunkUkey,
    src: Seq<char>,
) -> Seq<char>
    decreases ps.len(),
{
    if ps.len() == 0 {
        src
    } else {
        spec_render_fold(
            ps.drop_first(),
            compilation,
            chunk,
            spec_plugin_render(ps.first(), compilation, chunk, src),
        )
    }
}

/// The text one plugin contributes to the chunk hash.
pub open spec fn spec_plugin_hash_piece(p: Plugin, compilation: Compilation) -> Seq<char> {
    match p {
        Plugin::Container(_) => Seq::empty(),
        Plugin::SystemLibrary(_) => "SystemLibraryPlugin"@ + (
        match compilation.output_options.library {
            Some(n) => n@,
            None => Seq::<char>::empty(),
        }),
    }
}

/// What the hash accumulator absorbs over every plugin, in registration
/// order.
pub open spec fn spec_hash_fold(ps: Seq<Plugin>, compilation: Compilation, acc: Seq<char>) -> Seq<
    char,
>
    decreases ps.len(),
{
    if ps.len() == 0 {
        acc
    } else {
        spec_hash_fold(
            ps.drop_first(),
            compilation,
            acc + spec_plugin_hash_piece(ps.first(), compilation),
        )
    }
}

impl Plugin {
    /// Lets the plugin produce or transform the chunk's final source; a
    /// plugin without the hook returns nothing and the source stands.
    pub fn render(&self, compilation: &Compilation, chunk: ChunkUkey, source: &String) -> (r:
        Result<Option<String>, CoreError>)
        ensures
            match r {
                Ok(o) => match o {
                    Some(s) => s@ == spec_plugin_render(*self, *compilation, chunk, source@),
                    None => spec_plugin_render(*self, *compilation, chunk, source@) == source@,
                },
                Err(_) => false,
            },
    {
        match self {
            Plugin::Container(_) => Ok(None),
            Plugin::SystemLibrary(p) => p.render(compilation, chunk, source),
        }
    }

    /// Lets the plugin contribute state into the chunk hash; a plugin
    /// without the hook contributes nothing.
    pub fn js_chunk_hash(&self, compilation: &Compilation, hasher: &mut PluginHasher) -> (r: Result<
        (),
        CoreError,
    >)
        ensures
            final(hasher).data@ == old(hasher).data@ + spec_plugin_hash_piece(
                *self,
                *compilation,
            ),
            r is Ok,
    {
        match self {
            Plugin::Container(_) => {
                proof {
                    assert(hasher.data@ + Seq::<char>::empty() =~= hasher.data@);
                }
                Ok(())
            },
            Plugin::SystemLibrary(p) => p.js_chunk_hash(compilation, hasher),
        }
    }
}

/// Runs the render hook over the plugins in registration order, each seeing
/// the source the previous one produced.
pub fn run_render(
    plugins: &Vec<Plugin>,
    compilation: &Compilation,
    chunk: ChunkUkey,
    source: String,
) -> (r: Result<String, CoreError>)
    ensures
        match r {
            Ok(s) => s@ == spec_render_fold(plugins@, *compilation, chunk, source@),
            Err(_) => false,
        },
{
    let mut current = source;
    let mut i: usize = 0;
    proof {
        assert(plugins@.skip(0) =~= plugins@);
    }
    while i < plugins.len()
        invariant
            i <= plugins@.len(),
            spec_render_fold(plugins@, *compilation, chunk, source@) == spec_render_fold(
                plugins@.skip(i as int),
                *compilation,
                chunk,
                current@,
            ),
        decreases plugins@.len() - i,
    {
        proof {
            assert(plugins@.skip(i as int).drop_first() =~= plugins@.skip(i + 1));
            assert(plugins@.skip(i as int).first() == plugins@[i as int]);
        }
        match plugins[i].render(compilation, chunk, &current) {
            Ok(Some(s)) => {
                current = s;
            },
            Ok(None) => {},
            Err(e) => {
                return Err(e);
            },
        }
        i = i + 1;
    }
    Ok(current)
}

/// Runs the chunk-hash hook over the plugins in registration order.
pub fn run_js_chunk_hash(
    plugins: &Vec<Plugin>,
    compilation: &Compilation,
    hasher: &mut PluginHasher,
) -> (r: Result<(), CoreError>)
    ensures
        final(hasher).data@ == spec_hash_fold(plugins@, *compilation, old(hasher).data@),
        r is Ok,
{
    let mut i: usize = 0;
    proof {
        assert(plugins@.skip(0) =~= plugins@);
    }
    while i < plugins.len()
        invariant
            i <= plugins@.len(),
            spec_hash_fold(plugins@, *compilation, old(hasher).data@) == spec_hash_fold(
                plugins@.skip(i as int),
                *compilation,
                hasher.data@,
            ),
        decreases plugins@.len() - i,
    {
        proof {
            assert(plugins@.skip(i as int).drop_first() =~= plugins@.skip(i + 1));
            assert(plugins@.skip(i as int).first() == plugins@[i as int]);
        }
        match plugins[i].js_chunk_hash(compilation, hasher) {
            Ok(_) => {},
            Err(e) => {
                return Err(e);
            },
        }
        i = i + 1;
    }
    Ok(())
}


/// How many entries a plugin's per-compilation hook seeds.
pub open spec fn spec_plugin_seeded_entries(p: Plugin) -> int {
    match p {
        Plugin::Container(_) => 1,
        Plugin::SystemLibrary(_) => 0,
    }
}

/// The entries seeded over a plugin list, in order.
pub open spec fn spec_seeded_entries_fold(ps: Seq<Plugin>) -> int
    decreases ps.len(),
{
    if ps.len() == 0 {
        0
    } else {
        spec_plugin_seeded_entries(ps.first()) + spec_seeded_entries_fold(ps.drop_first())
    }
}

impl Plugin {
    /// Lets the plugin attach per-compilation state; the container plugin
    /// seeds exactly its entry, other plugins change nothing here.
    pub fn compilation(&mut self, compilation: &mut Compilation) -> (r: Result<(), CoreError>)
        requires
            old(compilation).module_graph.wf(),
        ensures
            *final(self) == *old(self),
            final(compilation).module_graph.wf(),
            final(compilation).entries@.len() == old(compilation).entries@.len()
                + spec_plugin_seeded_entries(*old(self)),
            final(compilation).module_graph.dependencies@.len() == old(compilation).module_graph.dependencies@.len() + spec_plugin_seeded_entries(*old(self)),
            forall|j: int|
                0 <= j < old(compilation).entries@.len() ==> final(compilation).entries@[j] == old(compilation).entries@[j],
            forall|j: int|
                0 <= j < old(compilation).module_graph.dependencies@.len() ==> final(compilation).module_graph.dependencies@[j] == old(compilation).module_graph.dependencies@[j],
            final(compilation).module_graph.modules@ == old(compilation).module_graph.modules@,
            *old(self) matches Plugin::Container(_) ==> spec_container_entry_at(
                *final(compilation),
                old(compilation).entries@.len() as int,
            ),
            r is Ok,
    {
        match self {
            Plugin::Container(p) => p.compilation(compilation),
            Plugin::SystemLibrary(_) => Ok(()),
        }
    }
}

/// Runs the per-compilation hook over the plugins in registration order;
/// what was recorded before stays, and every seeded entry is the container
/// entry with its dependency.
pub fn run_compilation_hooks(plugins: &mut Vec<Plugin>, compilation: &mut Compilation) -> (r:
    Result<(), CoreError>)
    requires
        old(compilation).module_graph.wf(),
    ensures
        final(compilation).module_graph.wf(),
        final(compilation).entries@.len() == old(compilation).entries@.len()
            + spec_seeded_entries_fold(old(plugins)@),
        forall|j: int|
            0 <= j < old(compilation).entries@.len() ==> final(compilation).entries@[j] == old(compilation).entries@[j],
        forall|k: int|
            old(compilation).entries@.len() <= k < final(compilation).entries@.len()
                ==> spec_container_entry_at(*final(compilation), k),
        r is Ok,
{
    let ghost plugins0 = plugins@;
    let n = plugins.len();
    let mut i: usize = 0;
    proof {
        assert(plugins@.skip(0) =~= plugins@);
    }
    while i < n
        invariant
            i <= n,
            n == plugins@.len(),
            n == plugins0.len(),
            compilation.module_graph.wf(),
            plugins@.skip(i as int) =~= plugins0.skip(i as int),
            compilation.entries@.len() == old(compilation).entries@.len()
                + spec_seeded_entries_fold(plugins0) - spec_seeded_entries_fold(
                plugins0.skip(i as int),
            ),
            compilation.entries@.len() >= old(compilation).entries@.len(),
            compilation.module_graph.dependencies@.len() >= old(compilation).module_graph.dependencies@.len(),
            forall|j: int|
                0 <= j < old(compilation).entries@.len() ==> compilation.entries@[j] == old(compilation).entries@[j],
            forall|k: int|
                old(compilation).entries@.len() <= k < compilation.entries@.len()
                    ==> spec_container_entry_at(*compilation, k),
        decreases n - i,
    {
        proof {
            assert(plugins0.skip(i as int).drop_first() =~= plugins0.skip(i + 1));
            assert(plugins0.skip(i as int)[0] == plugins0[i as int]);
            assert(plugins@.skip(i as int)[0] == plugins@[i as int]);
            assert(plugins@[i as int] == plugins0[i as int]);
            lemma_seeded_entries_nonneg(plugins0.skip(i + 1));
        }
        let ghost before = plugins@;
        let ghost comp_before = *compilation;
        match plugins[i].compilation(compilation) {
            Ok(_) => {},
            Err(e) => {
                return Err(e);
            },
        }
        proof {
            assert(plugins@.skip(i + 1) =~= before.skip(i + 1));
            assert(before.skip(i + 1) =~= plugins0.skip(i + 1));
            assert forall|k: int|
                old(compilation).entries@.len() <= k
                    < compilation.entries@.len() implies spec_container_entry_at(
                *compilation,
                k,
            ) by {
                if k < comp_before.entries@.len() {
                    lemma_container_entry_preserved(comp_before, *compilation, k);
                }
            }
        }
        i = i + 1;
    }
    proof {
        assert(plugins0.skip(n as int) =~= Seq::<Plugin>::empty());
    }
    Ok(())
}

/// No plugin removes entries.
pub proof fn lemma_seeded_entries_nonneg(ps: Seq<Plugin>)
    ensures
        spec_seeded_entries_fold(ps) >= 0,
    decreases ps.len(),
{
    if ps.len() > 0 {
        lemma_seeded_entries_nonneg(ps.drop_first());
    }
}

} // verus!
