//! The compiler: wires a pass manager over a source context, runs the
//! pipeline, and hands the accumulated pass data to the code generator,
//! which populates the object representation.
//!
//! The translation of individual source instructions into object-format
//! statements is not implemented here; this module provides the framework
//! it plugs into.

use vstd::prelude::*;
use vstd::string::{StrSliceExecFns, StringExecFns};

use crate::context::{FunctionDescription, GlobalDescription, SourceContext};
use crate::errors::Error;
use crate::flo::FlatLoweredObject;
use crate::llvm::TopLevelEntryKind;
use crate::module_map::{BuildModuleMap, FunctionInfo, GlobalInfo};
use crate::module_map::{layout_error, ModuleMap};
use crate::pass::{
    keys_reserved_ok, module_map_published, output_of, pipeline_accepts, provides_surviving_upto,
    survives_upto, ConcretePass, DynPassDataMap, PassData, PassDataOps, PassManager,
    PassManagerReturnData, MODULE_MAP_PASS_KEY,
};
use crate::pass_data::PassDataMap;
use crate::polyfill::PolyfillMap;

verus! {

/// The result of running the compilation pipeline: the final state of the
/// pass data after all passes have executed.
#[derive(Debug)]
pub struct CompilationResult {
    /// The final state of the pass data after the compiler passes have been
    /// executed.
    pub pass_results: DynPassDataMap,
}

impl CompilationResult {
    /// Constructs a new compilation result wrapping the final output of the
    /// compiler passes.
    pub fn new(pass_results: DynPassDataMap) -> (r: CompilationResult)
        ensures
            r.pass_results == pass_results,
    {
        CompilationResult { pass_results }
    }
}

/// Handles the minutiae of building an object, tracking the metadata
/// required to construct it properly.
///
/// Ensuring the validity of the object is up to the consumer of this
/// interface: the object may be left in invalid states to aid construction,
/// and is checked for validity when construction completes.
#[derive(Debug)]
pub struct CodeGenerator {
    /// The name of the module being compiled; never empty.
    name: String,

    /// The result data from the analysis passes that have run before
    /// building begins. It is never mutated during building.
    pass_data: DynPassDataMap,

    /// The source context serving as the source of data for compilation.
    source_context: SourceContext,
}

/// Whether the accumulated pass data holds a module map under the module
/// mapping pass's identity, as code generation requires.
pub open spec fn has_module_map(d: DynPassDataMap) -> bool {
    d.contains_key(MODULE_MAP_PASS_KEY) && d.data_of(MODULE_MAP_PASS_KEY) is ModuleMap
}

impl CodeGenerator {
    /// The name of the module being built.
    pub closed spec fn name_spec(self) -> Seq<char> {
        self.name@
    }

    /// The pass data the builder was provided with.
    pub closed spec fn pass_data_spec(self) -> DynPassDataMap {
        self.pass_data
    }

    /// Constructs a new code generator instance for the module with name
    /// `module_name`, with the provided `pass_data` and `source_context`.
    ///
    /// An empty module name is rejected: the module mapping pass fills in a
    /// name even for anonymous modules, so an empty name here is an error.
    pub fn new(module_name: &str, pass_data: DynPassDataMap, source_context: SourceContext) -> (r:
        Result<CodeGenerator, Error>)
        ensures
            match r {
                Ok(g) => module_name@.len() > 0 && g.name_spec() == module_name@
                    && g.pass_data_spec() == pass_data,
                Err(e) => module_name@.len() == 0 && e == Error::MissingModuleName,
            },
    {
        if module_name.unicode_len() == 0 {
            return Err(Error::MissingModuleName);
        }
        Ok(CodeGenerator { name: module_name.to_owned(), pass_data, source_context })
    }

    /// Gets the name of the module being built.
    pub fn name(&self) -> (r: &String)
        ensures
            r@ == self.name_spec(),
    {
        &self.name
    }

    /// Gets the pass data the builder was provided with.
    pub fn pass_data(&self) -> (r: &DynPassDataMap) {
        &self.pass_data
    }

    /// Gets the source context serving as the input to code generation.
    pub fn context(&self) -> (r: &SourceContext) {
        &self.source_context
    }

    /// Executes the code generation process on a freshly created object.
    ///
    /// Generation succeeds exactly when the pass data holds the module
    /// map; until the per-entity translation is plugged in, the result is
    /// the freshly created object carrying the module's name.
    pub fn run(&self) -> (r: Result<FlatLoweredObject, Error>)
        ensures
            r is Ok <==> has_module_map(self.pass_data_spec()),
            match r {
                Ok(flo) => {
                    &&& flo.wf()
                    &&& flo.fresh_object(self.name_spec())
                    &&& !flo.allow_incomplete_spec()
                    &&& flo.clean()
                },
                Err(e) => e is CompilationFailure,
            },
    {
        let mut cg_data = CodegenData::new(self.name.as_str());
        match self.generate_module(&mut cg_data) {
            Ok(()) => {},
            Err(e) => {
                return Err(e);
            },
        }
        Ok(cg_data.into_flo())
    }

    /// Performs the code generation process for the whole module being
    /// processed, generating equivalent object code into `data`.
    ///
    /// Only defined symbols can produce code; declarations serve as
    /// consistency checks. The module map is required to make correct code
    /// generation decisions, so its absence from the pass data is an error.
    ///
    /// The per-entity steps are deliberate seams: the translation of the
    /// source's instructions into object statements plugs in there, and
    /// until it does they leave the object untouched.
    pub fn generate_module(&self, data: &mut CodegenData) -> (r: Result<(), Error>)
        ensures
            r is Ok <==> has_module_map(self.pass_data_spec()),
            *final(data) == *old(data),
            r matches Err(e) ==> e is CompilationFailure,
    {
        let module_map = match self.pass_data.get::<BuildModuleMap>() {
            Some(d) => match crate::module_map::ModuleMap::view_as(d) {
                Some(m) => m,
                None => {
                    return Err(Error::CompilationFailure(missing_map_message()));
                },
            },
            None => {
                return Err(Error::CompilationFailure(missing_map_message()));
            },
        };
        // Functions are what code is actually generated for.
        let fn_count = self.source_context.functions.len();
        let mut i: usize = 0;
        while i < fn_count
            invariant
                i <= fn_count,
                fn_count == self.source_context.functions@.len(),
                *data == *old(data),
            decreases fn_count - i,
        {
            let func = &self.source_context.functions[i];
            match module_map.get_function(&func.name) {
                Some(info) => {
                    if matches!(info.kind, TopLevelEntryKind::Definition) {
                        match self.generate_function(func, info, data) {
                            Ok(()) => {},
                            Err(e) => {
                                return Err(e);
                            },
                        }
                    }
                },
                None => {},
            }
            i += 1;
        }
        // A global needs code only when it carries an initializer.
        let gl_count = self.source_context.globals.len();
        let mut k: usize = 0;
        while k < gl_count
            invariant
                k <= gl_count,
                gl_count == self.source_context.globals@.len(),
                *data == *old(data),
            decreases gl_count - k,
        {
            let global = &self.source_context.globals[k];
            match module_map.get_global(&global.name) {
                Some(info) => {
                    if matches!(info.kind, TopLevelEntryKind::Definition) {
                        match self.generate_global(global, info, data) {
                            Ok(()) => {},
                            Err(e) => {
                                return Err(e);
                            },
                        }
                    }
                },
                None => {},
            }
            k += 1;
        }
        Ok(())
    }

    /// Generates code for the provided function, described by `func_info`.
    /// The translation of the function's blocks plugs in here.
    pub fn generate_function(
        &self,
        func: &FunctionDescription,
        func_info: &FunctionInfo,
        data: &mut CodegenData,
    ) -> (r: Result<(), Error>)
        ensures
            r is Ok,
            *final(data) == *old(data),
    {
        let _ = func;
        let _ = func_info;
        Ok(())
    }

    /// Generates code for the provided global, described by `global_info`.
    /// The registration of initialized globals plugs in here.
    pub fn generate_global(
        &self,
        global: &GlobalDescription,
        global_info: &GlobalInfo,
        data: &mut CodegenData,
    ) -> (r: Result<(), Error>)
        ensures
            r is Ok,
            *final(data) == *old(data),
    {
        let _ = global;
        let _ = global_info;
        Ok(())
    }

    /// Generates code for a single statement of the current block.
    pub fn generate_statement(&self, data: &mut CodegenData) -> (r: Result<(), Error>)
        ensures
            r is Ok,
            *final(data) == *old(data),
    {
        Ok(())
    }

    /// Generates code for a single expression of the current statement.
    pub fn generate_expression(&self, data: &mut CodegenData) -> (r: Result<(), Error>)
        ensures
            r is Ok,
            *final(data) == *old(data),
    {
        Ok(())
    }

    /// Builds a conditional construct into the output object.
    pub fn make_if(output: &mut CodegenData) -> (r: Result<(), Error>)
        ensures
            r is Ok,
            *final(output) == *old(output),
    {
        Ok(())
    }
}

/// The data store for the in-progress work of the code generator: the
/// object being generated, handed through each step of the process.
///
/// At any point the object may be in an invalid state, which is allowed to
/// aid construction; the consumer is responsible for its coherence before
/// finalizing generation.
#[derive(Debug)]
pub struct CodegenData {
    /// The object being generated as part of the code generation process.
    flat_lowered_object: FlatLoweredObject,
}

impl CodegenData {
    /// The object being generated.
    pub closed spec fn flo_spec(self) -> FlatLoweredObject {
        self.flat_lowered_object
    }

    /// Constructs a new code generator data store for the module with the
    /// provided name.
    pub fn new(name: &str) -> (r: CodegenData)
        ensures
            r.flo_spec().wf(),
            r.flo_spec().fresh_object(name@),
            !r.flo_spec().allow_incomplete_spec(),
            r.flo_spec().clean(),
    {
        CodegenData { flat_lowered_object: FlatLoweredObject::new(name) }
    }

    /// Gets an immutable reference to the object being built.
    pub fn flo(&self) -> (r: &FlatLoweredObject)
        ensures
            *r == self.flo_spec(),
    {
        &self.flat_lowered_object
    }

    /// Gets a mutable reference to the object being built.
    pub fn flo_mut(&mut self) -> (r: &mut FlatLoweredObject)
        ensures
            *r == old(self).flo_spec(),
            final(self).flo_spec() == *final(r),
    {
        &mut self.flat_lowered_object
    }

    /// Consumes the store, yielding the generated object.
    pub fn into_flo(self) -> (r: FlatLoweredObject)
        ensures
            r == self.flo_spec(),
    {
        self.flat_lowered_object
    }
}

/// Handles the compilation of a source module to the object format: runs
/// the configured passes over the context, then drives code generation from
/// the accumulated pass data.
#[derive(Debug)]
pub struct Compiler {
    /// The source context describing the module to be compiled.
    pub context: SourceContext,

    /// The passes this compiler is configured to run.
    pub passes: PassManager,

    /// The mapping between source-IR names and polyfill names to use during
    /// compilation.
    pub polyfill_map: PolyfillMap,
}

impl Compiler {
    /// Constructs a new compiler instance wrapping the provided `context`,
    /// the `passes` to run, and the `polyfill_map`.
    pub fn new(context: SourceContext, passes: PassManager, polyfill_map: PolyfillMap) -> (r:
        Compiler)
        ensures
            r.context == context,
            r.passes == passes,
    {
        Compiler { context, passes, polyfill_map }
    }

    /// Executes the compiler on the configured module.
    ///
    /// This consumes the compiler: running is a state transition that would
    /// leave it invalid for reuse. Success is owed whenever the pipeline
    /// accepts the module's layout, the pass identities are soundly
    /// assigned, and a module mapping pass survives to publish its map;
    /// the result then carries the mapped module's name. A failure is the
    /// failing pass's own error, or the missing-map error when no module
    /// map was published.
    pub fn run(self) -> (r: Result<FlatLoweredObject, Error>)
        ensures
            (pipeline_accepts(self.passes.ordering(), self.context.data_layout@)
                && keys_reserved_ok(self.passes.ordering()) && module_map_published(
                self.passes.ordering(),
            )) ==> r is Ok,
            match r {
                Ok(flo) => {
                    &&& flo.wf()
                    &&& flo.clean()
                    &&& flo.module_name@.len() > 0
                    &&& self.context.module_name@.len() > 0 ==> flo.module_name@
                        == self.context.module_name@
                },
                Err(e) => e is CompilationFailure || layout_error(self.context.data_layout@, e),
            },
    {
        let ghost s = self.passes.ordering();
        let ghost src = self.context;
        let PassManagerReturnData { context, data } = match self.passes.run(self.context) {
            Ok(rd) => rd,
            Err(e) => {
                return Err(e);
            },
        };
        // The module mapping pass must have run for code generation to know
        // the module's name.
        let ghost hyp = keys_reserved_ok(s) && module_map_published(s);
        proof {
            if hyp {
                // A surviving module mapping pass provides the reserved
                // identity, so the map holds module-map data under it.
                let q = choose|q: int|
                    0 <= q < s.len() && (#[trigger] s[q]) is ModuleMap && survives_upto(
                        s,
                        q,
                        s.len() as int,
                    );
                assert(s[q].key_spec() == MODULE_MAP_PASS_KEY);
                assert(provides_surviving_upto(s, s.len() as int, MODULE_MAP_PASS_KEY));
            }
        }
        let mod_name = match data.get::<BuildModuleMap>() {
            Some(d) => match ModuleMap::view_as(d) {
                Some(m) => m.module_name.clone(),
                None => {
                    proof {
                        if hyp {
                            // Under sound identities, whatever survives
                            // under the reserved key is a module map.
                            let q2 = choose|q2: int|
                                0 <= q2 < s.len() && (#[trigger] s[q2]).key_spec()
                                    == MODULE_MAP_PASS_KEY && survives_upto(s, q2, s.len() as int)
                                    && output_of(s[q2], src, data.data_of(MODULE_MAP_PASS_KEY));
                            assert(false);
                        }
                    }
                    return Err(Error::CompilationFailure(missing_map_message()));
                },
            },
            None => {
                proof {
                    if hyp {
                        assert(data.contains_key(MODULE_MAP_PASS_KEY));
                        assert(false);
                    }
                }
                return Err(Error::CompilationFailure(missing_map_message()));
            },
        };
        proof {
            // The stored map came from a module mapping pass, so its name
            // obeys the mapping's name rule and is never empty.
            let q3 = choose|q3: int|
                0 <= q3 < s.len() && (#[trigger] s[q3]).key_spec() == MODULE_MAP_PASS_KEY
                    && survives_upto(s, q3, s.len() as int) && output_of(
                    s[q3],
                    src,
                    data.data_of(MODULE_MAP_PASS_KEY),
                );
            assert(s[q3] is ModuleMap);
            assert(mod_name@.len() > 0);
        }
        let generator = match CodeGenerator::new(mod_name.as_str(), data, context) {
            Ok(g) => g,
            Err(_) => {
                // Unreachable: a mapped module's name is never empty.
                proof {
                    assert(false);
                }
                vstd::pervasive::unreached()
            },
        };
        generator.run()
    }
}

/// The message reported when the module mapping pass has not run before
/// code generation.
fn missing_map_message() -> (r: String) {
    String::from_str("the module mapping pass has not been run, but code generation requires it")
}

/// Allows building a [`Compiler`] while retaining defaults for the parts
/// that need no customization. The builder consumes itself, so calls are
/// chained in the fluent style.
#[derive(Debug)]
pub struct CompilerBuilder {
    /// The source context describing the module to be compiled.
    context: SourceContext,

    /// The passes the compiler is to run, when customized.
    passes: Option<PassManager>,

    /// The polyfill mapping the compiler is to use, when customized.
    polyfill_map: Option<PolyfillMap>,
}

impl CompilerBuilder {
    /// Creates a new compiler builder wrapping the provided context; the
    /// pass configuration and the polyfill configuration stay default
    /// unless specified.
    pub fn new(context: SourceContext) -> (r: CompilerBuilder) {
        CompilerBuilder { context, passes: None, polyfill_map: None }
    }

    /// Specifies the pass configuration for the compiler.
    pub fn with_passes(self, pass_manager: PassManager) -> (r: CompilerBuilder) {
        CompilerBuilder {
            context: self.context,
            passes: Some(pass_manager),
            polyfill_map: self.polyfill_map,
        }
    }

    /// Specifies the polyfill configuration for the compiler.
    pub fn with_polyfills(self, polyfill_map: PolyfillMap) -> (r: CompilerBuilder) {
        CompilerBuilder {
            context: self.context,
            passes: self.passes,
            polyfill_map: Some(polyfill_map),
        }
    }

    /// Builds a compiler from the specified configuration.
    pub fn build(self) -> (r: Compiler) {
        let passes = match self.passes {
            Some(p) => p,
            None => PassManager::new_default(),
        };
        let polyfill_map = match self.polyfill_map {
            Some(p) => p,
            None => PolyfillMap::default(),
        };
        Compiler::new(self.context, passes, polyfill_map)
    }
}

} // verus!
