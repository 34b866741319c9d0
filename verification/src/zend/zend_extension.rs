//! Which low-level engine hooks a `zend_extension` asks for, and the
//! compiler flags those hooks need.
use vstd::prelude::*;

verus! {

/// `ZEND_COMPILE_EXTENDED_STMT`: emit a statement opcode per statement.
pub const ZEND_COMPILE_EXTENDED_STMT: u32 = 0x1;
/// `ZEND_COMPILE_EXTENDED_FCALL`: emit opcodes around every call site.
pub const ZEND_COMPILE_EXTENDED_FCALL: u32 = 0x2;
/// `ZEND_COMPILE_HANDLE_OP_ARRAY`: run the op-array handler after compiling.
pub const ZEND_COMPILE_HANDLE_OP_ARRAY: u32 = 0x4;

/// A registration: the handler factory and the hooks it opted into.
pub struct ZendExtensionConfig<F> {
    /// Makes the handler when the extension starts.
    pub factory: F,
    /// Whether `on_op_array_compiled` runs.
    pub hook_op_array: bool,
    /// Whether `on_statement` runs.
    pub hook_statements: bool,
    /// Whether `on_fcall_begin` and `on_fcall_end` run.
    pub hook_fcalls: bool,
}

/// The compiler flags that the chosen hooks need: each hook adds its own.
pub open spec fn spec_compile_flags(hook_op_array: bool, hook_statements: bool, hook_fcalls: bool) -> u32 {
    (if hook_op_array { ZEND_COMPILE_HANDLE_OP_ARRAY } else { 0u32 }) | (if hook_statements {
        ZEND_COMPILE_EXTENDED_STMT
    } else {
        0u32
    }) | (if hook_fcalls { ZEND_COMPILE_EXTENDED_FCALL } else { 0u32 })
}

/// The compiler flags a registration needs (see [`spec_compile_flags`]).
pub fn compile_flags_for<F>(cfg: &ZendExtensionConfig<F>) -> (r: u32)
    ensures
        r == spec_compile_flags(cfg.hook_op_array, cfg.hook_statements, cfg.hook_fcalls),
{
    let op_array: u32 = if cfg.hook_op_array { ZEND_COMPILE_HANDLE_OP_ARRAY } else { 0 };
    let statements: u32 = if cfg.hook_statements { ZEND_COMPILE_EXTENDED_STMT } else { 0 };
    let fcalls: u32 = if cfg.hook_fcalls { ZEND_COMPILE_EXTENDED_FCALL } else { 0 };
    op_array | statements | fcalls
}

/// Builder of a `zend_extension` registration for a module under
/// construction: every hook starts off and is opted into one at a time.
pub struct ZendExtensionBuilder<M, F> {
    module: M,
    factory: F,
    hook_op_array: bool,
    hook_statements: bool,
    hook_fcalls: bool,
}

impl<M, F> ZendExtensionBuilder<M, F> {
    /// The options as `(op_array, statements, fcalls)`.
    pub closed spec fn spec_opts(&self) -> (bool, bool, bool) {
        (self.hook_op_array, self.hook_statements, self.hook_fcalls)
    }

    /// The module the registration returns to.
    pub closed spec fn spec_module(&self) -> M {
        self.module
    }

    /// The handler factory.
    pub closed spec fn spec_factory(&self) -> F {
        self.factory
    }

    /// A builder for `module` with no hook chosen.
    pub fn new(module: M, factory: F) -> (r: Self)
        ensures
            r.spec_opts() == (false, false, false),
            r.spec_module() == module,
            r.spec_factory() == factory,
    {
        ZendExtensionBuilder { module, factory, hook_op_array: false, hook_statements: false, hook_fcalls: false }
    }

    /// Opts into `on_op_array_compiled`, leaving the other hooks as they are.
    pub fn hook_op_array_compile(self) -> (r: Self)
        ensures
            r.spec_opts() == (true, self.spec_opts().1, self.spec_opts().2),
            r.spec_module() == self.spec_module(),
            r.spec_factory() == self.spec_factory(),
    {
        let mut b = self;
        b.hook_op_array = true;
        b
    }

    /// Opts into `on_statement`, leaving the other hooks as they are.
    pub fn hook_statements(self) -> (r: Self)
        ensures
            r.spec_opts() == (self.spec_opts().0, true, self.spec_opts().2),
            r.spec_module() == self.spec_module(),
            r.spec_factory() == self.spec_factory(),
    {
        let mut b = self;
        b.hook_statements = true;
        b
    }

    /// Opts into `on_fcall_begin` and `on_fcall_end`, leaving the other hooks
    /// as they are.
    pub fn hook_fcalls(self) -> (r: Self)
        ensures
            r.spec_opts() == (self.spec_opts().0, self.spec_opts().1, true),
            r.spec_module() == self.spec_module(),
            r.spec_factory() == self.spec_factory(),
    {
        let mut b = self;
        b.hook_fcalls = true;
        b
    }

    /// The options as `(op_array, statements, fcalls)`.
    pub fn opts(&self) -> (r: (bool, bool, bool))
        ensures
            r == self.spec_opts(),
    {
        (self.hook_op_array, self.hook_statements, self.hook_fcalls)
    }

    /// Ends the builder: the module to go on with, and the registration to
    /// hand to the engine.
    pub fn finish(self) -> (r: (M, ZendExtensionConfig<F>))
        ensures
            r.0 == self.spec_module(),
            r.1.factory == self.spec_factory(),
            (r.1.hook_op_array, r.1.hook_statements, r.1.hook_fcalls) == self.spec_opts(),
    {
        (
            self.module,
            ZendExtensionConfig {
                factory: self.factory,
                hook_op_array: self.hook_op_array,
                hook_statements: self.hook_statements,
                hook_fcalls: self.hook_fcalls,
            },
        )
    }
}

/// Each hook's compiler flag is set exactly when that hook is chosen, and no
/// other bit is ever set.
pub proof fn law_compile_flags_are_per_hook(hook_op_array: bool, hook_statements: bool, hook_fcalls: bool)
    ensures
        (spec_compile_flags(hook_op_array, hook_statements, hook_fcalls) & ZEND_COMPILE_HANDLE_OP_ARRAY != 0)
            == hook_op_array,
        (spec_compile_flags(hook_op_array, hook_statements, hook_fcalls) & ZEND_COMPILE_EXTENDED_STMT != 0)
            == hook_statements,
        (spec_compile_flags(hook_op_array, hook_statements, hook_fcalls) & ZEND_COMPILE_EXTENDED_FCALL != 0)
            == hook_fcalls,
        spec_compile_flags(hook_op_array, hook_statements, hook_fcalls) & !0x7u32 == 0,
{
    let f = spec_compile_flags(hook_op_array, hook_statements, hook_fcalls);
    let a = hook_op_array;
    let b = hook_statements;
    let c = hook_fcalls;
    assert((f & 4u32 != 0) == a && (f & 1u32 != 0) == b && (f & 2u32 != 0) == c && f & !7u32 == 0)
        by (bit_vector)
        requires
            f == ((if a { 4u32 } else { 0u32 }) | (if b { 1u32 } else { 0u32 })) | (if c {
                2u32
            } else {
                0u32
            }),
    ;
}

} // verus!
