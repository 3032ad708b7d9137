//! The ISLE compilations of the code generator build: which ISLE sources are
//! compiled into which generated Rust file.
//!
//! A path is a list of components below a base directory; joining a file or
//! directory name appends one component.

use vstd::prelude::*;
use vstd::string::StrSliceExecFns;

verus! {

/// A file-system path, as its components.
#[derive(Clone, Debug)]
pub struct IslePath {
    pub components: Vec<String>,
}

impl View for IslePath {
    type V = Seq<Seq<char>>;

    open spec fn view(&self) -> Seq<Seq<char>> {
        Seq::new(self.components@.len(), |i: int| self.components@[i]@)
    }
}

/// The views of a list of paths.
pub open spec fn paths_view(v: Seq<IslePath>) -> Seq<Seq<Seq<char>>> {
    Seq::new(v.len(), |i: int| v[i]@)
}

/// A compilation from ISLE sources to one generated Rust file.
#[derive(Clone, Debug)]
pub struct IsleCompilation {
    pub name: String,
    pub output: IslePath,
    pub tracked_inputs: Vec<IslePath>,
    pub untracked_inputs: Vec<IslePath>,
}

/// The name, output path, tracked inputs and untracked inputs of a compilation.
pub struct CompilationView {
    pub name: Seq<char>,
    pub output: Seq<Seq<char>>,
    pub inputs_tracked: Seq<Seq<Seq<char>>>,
    pub inputs_untracked: Seq<Seq<Seq<char>>>,
}

impl View for IsleCompilation {
    type V = CompilationView;

    open spec fn view(&self) -> CompilationView {
        CompilationView {
            name: self.name@,
            output: self.output@,
            inputs_tracked: paths_view(self.tracked_inputs@),
            inputs_untracked: paths_view(self.untracked_inputs@),
        }
    }
}

/// The list of compilations that exist in the repository.
#[derive(Clone, Debug)]
pub struct IsleCompilations {
    pub items: Vec<IsleCompilation>,
}

impl View for IsleCompilations {
    type V = Seq<CompilationView>;

    open spec fn view(&self) -> Seq<CompilationView> {
        Seq::new(self.items@.len(), |i: int| self.items@[i]@)
    }
}

/// Whether a path names an ISLE source: the extension of its last component
/// (what follows the last dot, when the name does not begin with that dot)
/// is `isle`.
pub open spec fn spec_has_isle_extension(p: Seq<Seq<char>>) -> bool {
    &&& p.len() > 0
    &&& p.last().len() > 5
    &&& p.last().subrange(p.last().len() - 5, p.last().len() as int) == seq!['.', 'i', 's', 'l', 'e']
}

impl IslePath {
    /// Whether the path names an ISLE source file, by its extension.
    pub fn has_isle_extension(&self) -> (b: bool)
        ensures
            b == spec_has_isle_extension(self@),
    {
        let n = self.components.len();
        if n == 0 {
            return false;
        }
        let name = self.components[n - 1].as_str();
        assert(self@.last() == name@);
        let len = name.unicode_len();
        if len <= 5 {
            return false;
        }
        let ghost tail = seq!['.', 'i', 's', 'l', 'e'];
        let b = name.get_char(len - 5) == '.' && name.get_char(len - 4) == 'i' && name.get_char(len - 3)
            == 's' && name.get_char(len - 2) == 'l' && name.get_char(len - 1) == 'e';
        let ghost sub = name@.subrange(len - 5, len as int);
        if b {
            assert(sub =~= tail);
        } else {
            assert(sub != tail) by {
                if sub == tail {
                    assert(sub[0] == tail[0] && sub[1] == tail[1] && sub[2] == tail[2] && sub[3] == tail[3]
                        && sub[4] == tail[4]);
                }
            }
        }
        b
    }

    /// A copy of the path.
    pub fn duplicate(&self) -> (p: IslePath)
        ensures
            p@ == self@,
    {
        let mut components: Vec<String> = Vec::new();
        let mut i: usize = 0;
        while i < self.components.len()
            invariant
                i <= self.components@.len(),
                components@.len() == i,
                forall|j: int| 0 <= j < i ==> (#[trigger] components@[j])@ == self.components@[j]@,
            decreases self.components@.len() - i,
        {
            components.push(self.components[i].clone());
            i = i + 1;
        }
        let p = IslePath { components };
        assert(p@ =~= self@);
        p
    }

    /// The path with one more component, `part`.
    pub fn join(&self, part: &str) -> (p: IslePath)
        ensures
            p@ == self@.push(part@),
    {
        let mut p = self.duplicate();
        p.components.push(part.to_owned());
        assert(p@ =~= self@.push(part@));
        p
    }
}

/// Append a path to a list of paths.
fn push_path(v: &mut Vec<IslePath>, p: IslePath)
    ensures
        paths_view(final(v)@) == paths_view(old(v)@).push(p@),
{
    v.push(p);
    assert(paths_view(v@) =~= paths_view(old(v)@).push(p@));
}

/// A list of paths from a sequence built by joining.
fn paths_of(a: IslePath, b: IslePath) -> (v: Vec<IslePath>)
    ensures
        paths_view(v@) == seq![a@, b@],
{
    let mut v: Vec<IslePath> = Vec::new();
    let ghost av = a@;
    let ghost bv = b@;
    push_path(&mut v, a);
    push_path(&mut v, b);
    assert(paths_view(v@) =~= seq![av, bv]);
    v
}

impl IsleCompilations {
    /// The first compilation called `name`, if there is one.
    pub fn lookup(&self, name: &str) -> (res: Option<&IsleCompilation>)
        ensures
            match res {
                Some(c) => exists|i: int|
                    0 <= i < self.items@.len() && self.items@[i] == *c && c.name@ == name@ && forall|
                        j: int,
                    | 0 <= j < i ==> (#[trigger] self.items@[j]).name@ != name@,
                None => forall|j: int| 0 <= j < self.items@.len() ==> (#[trigger] self.items@[j]).name@ != name@,
            },
    {
        let wanted = name.to_owned();
        let mut i: usize = 0;
        while i < self.items.len()
            invariant
                i <= self.items@.len(),
                wanted@ == name@,
                forall|j: int| 0 <= j < i ==> (#[trigger] self.items@[j]).name@ != name@,
            decreases self.items@.len() - i,
        {
            if self.items[i].name == wanted {
                return Some(&self.items[i]);
            }
            i = i + 1;
        }
        None
    }
}

impl IsleCompilation {
    /// All inputs of the compilation, inputs_tracked first, then inputs_untracked. Inputs
    /// may be directories.
    pub fn inputs(&self) -> (v: Vec<IslePath>)
        ensures
            paths_view(v@) == paths_view(self.tracked_inputs@) + paths_view(self.untracked_inputs@),
    {
        let mut v: Vec<IslePath> = Vec::new();
        let mut i: usize = 0;
        while i < self.tracked_inputs.len()
            invariant
                i <= self.tracked_inputs@.len(),
                paths_view(v@) == paths_view(self.tracked_inputs@).subrange(0, i as int),
            decreases self.tracked_inputs@.len() - i,
        {
            push_path(&mut v, self.tracked_inputs[i].duplicate());
            assert(paths_view(v@) =~= paths_view(self.tracked_inputs@).subrange(0, i + 1));
            i = i + 1;
        }
        let mut k: usize = 0;
        while k < self.untracked_inputs.len()
            invariant
                k <= self.untracked_inputs@.len(),
                paths_view(v@) == paths_view(self.tracked_inputs@) + paths_view(
                    self.untracked_inputs@,
                ).subrange(0, k as int),
            decreases self.untracked_inputs@.len() - k,
        {
            push_path(&mut v, self.untracked_inputs[k].duplicate());
            assert(paths_view(v@) =~= paths_view(self.tracked_inputs@) + paths_view(
                self.untracked_inputs@,
            ).subrange(0, k + 1));
            k = k + 1;
        }
        assert(paths_view(v@) =~= paths_view(self.tracked_inputs@) + paths_view(self.untracked_inputs@));
        v
    }
}

/// `base/src/<file>`.
pub open spec fn src_file(base: Seq<Seq<char>>, file: Seq<char>) -> Seq<Seq<char>> {
    base.push("src"@).push(file)
}

/// The shared ISLE sources of every lowering backend.
pub open spec fn shared_lower_paths(crate_dir: Seq<Seq<char>>) -> Seq<Seq<Seq<char>>> {
    seq![
        src_file(crate_dir, "inst_specs.isle"@),
        src_file(crate_dir, "prelude.isle"@),
        src_file(crate_dir, "prelude_lower.isle"@),
    ]
}

/// The shared ISLE sources of every lowering backend: the instruction specs,
/// the prelude and the lowering prelude.
pub fn shared_isle_lower_paths(codegen_crate_dir: &IslePath) -> (v: Vec<IslePath>)
    ensures
        paths_view(v@) == shared_lower_paths(codegen_crate_dir@),
{
    let src = codegen_crate_dir.join("src");
    let mut v: Vec<IslePath> = Vec::new();
    push_path(&mut v, src.join("inst_specs.isle"));
    push_path(&mut v, src.join("prelude.isle"));
    push_path(&mut v, src.join("prelude_lower.isle"));
    assert(paths_view(v@) =~= shared_lower_paths(codegen_crate_dir@));
    v
}

/// `base/src/isa/<isa>/<file>`.
pub open spec fn isa_file(base: Seq<Seq<char>>, isa: Seq<char>, file: Seq<char>) -> Seq<Seq<char>> {
    base.push("src"@).push("isa"@).push(isa).push(file)
}

/// `base/src/spec/<file>`.
pub open spec fn spec_file(base: Seq<Seq<char>>, file: Seq<char>) -> Seq<Seq<char>> {
    base.push("src"@).push("spec"@).push(file)
}

/// The optional build features that add ISLE sources or compilations.
#[derive(Clone, Copy, Debug, PartialEq, Eq, Structural)]
pub struct IsleFeatures {
    /// Specifications of instructions and lowering rules.
    pub spec: bool,
    /// The Pulley interpreter backend.
    pub pulley: bool,
}

/// The specification sources a compilation gets when the `spec` feature is
/// on: the specification prelude, instruction specs and tags, then `extra`.
pub open spec fn spec_inputs(c: Seq<Seq<char>>, on: bool, extra: Seq<&str>) -> Seq<Seq<Seq<char>>> {
    if on {
        seq![
            spec_file(c, "prelude_spec.isle"@),
            spec_file(c, "inst_specs.isle"@),
            spec_file(c, "inst_tags.isle"@),
        ] + Seq::new(extra.len(), |i: int| spec_file(c, extra[i]@))
    } else {
        Seq::empty()
    }
}

/// The specification sources of a lowering backend: those of every
/// compilation, then the lowering prelude's specification.
pub open spec fn lower_spec_inputs(c: Seq<Seq<char>>, on: bool, extra: Seq<&str>) -> Seq<Seq<Seq<char>>> {
    spec_inputs(c, on, extra) + if on {
        seq![spec_file(c, "prelude_lower_spec.isle"@)]
    } else {
        Seq::empty()
    }
}

/// A compilation of a lowering backend: the preludes, its specification
/// sources and its own sources, with the numerics and CLIF lowering terms
/// generated by the build.
pub open spec fn lowering(
    c: Seq<Seq<char>>,
    g: Seq<Seq<char>>,
    name: Seq<char>,
    output: Seq<char>,
    specs: Seq<Seq<Seq<char>>>,
    own: Seq<Seq<Seq<char>>>,
    extra_untracked: Seq<Seq<Seq<char>>>,
) -> CompilationView {
    CompilationView {
        name,
        output: g.push(output),
        inputs_tracked: seq![src_file(c, "prelude.isle"@), src_file(c, "prelude_lower.isle"@)] + specs
            + own,
        inputs_untracked: seq![g.push("numerics.isle"@), g.push("clif_lower.isle"@)] + extra_untracked,
    }
}

/// The mid-end optimisation rules in `src/opts`.
pub open spec fn opt_rules(c: Seq<Seq<char>>) -> Seq<Seq<Seq<char>>> {
    let opts = c.push("src"@).push("opts"@);
    seq![
        opts.push("arithmetic.isle"@),
        opts.push("bitops.isle"@),
        opts.push("cprop.isle"@),
        opts.push("extends.isle"@),
        opts.push("icmp.isle"@),
        opts.push("remat.isle"@),
        opts.push("selects.isle"@),
        opts.push("shifts.isle"@),
        opts.push("skeleton.isle"@),
        opts.push("spaceship.isle"@),
        opts.push("spectre.isle"@),
        opts.push("vector.isle"@),
    ]
}

/// The ISLE compilation units: the mid-end optimiser, then the x64, aarch64,
/// s390x, riscv64 and sia32 lowering backends, and the Pulley backend when
/// that feature is on. The `spec` feature adds specification sources to each
/// compilation but Pulley's, and the aarch64 specification directory.
pub open spec fn isle_compilations(c: Seq<Seq<char>>, g: Seq<Seq<char>>, features: IsleFeatures) -> Seq<
    CompilationView,
> {
    let on = features.spec;
    let fp_state = seq!["fpconst.isle", "state.isle"];
    seq![
        CompilationView {
            name: "opt"@,
            output: g.push("isle_opt.rs"@),
            inputs_tracked: seq![src_file(c, "prelude.isle"@), src_file(c, "prelude_opt.isle"@)]
                + spec_inputs(c, on, seq!["fpconst.isle", "opt.isle"]) + opt_rules(c),
            inputs_untracked: seq![g.push("numerics.isle"@), g.push("clif_opt.isle"@)],
        },
        lowering(
            c,
            g,
            "x64"@,
            "isle_x64.rs"@,
            lower_spec_inputs(c, on, fp_state),
            seq![isa_file(c, "x64"@, "inst.isle"@), isa_file(c, "x64"@, "lower.isle"@)],
            seq![g.push("assembler.isle"@)],
        ),
        lowering(
            c,
            g,
            "aarch64"@,
            "isle_aarch64.rs"@,
            lower_spec_inputs(c, on, fp_state),
            seq![isa_file(c, "aarch64"@, "inst.isle"@), isa_file(c, "aarch64"@, "inst_neon.isle"@)]
                + (if on {
                seq![isa_file(c, "aarch64"@, "spec"@)]
            } else {
                Seq::empty()
            }) + seq![
                isa_file(c, "aarch64"@, "lower.isle"@),
                isa_file(c, "aarch64"@, "lower_dynamic_neon.isle"@),
            ],
            Seq::empty(),
        ),
        lowering(
            c,
            g,
            "s390x"@,
            "isle_s390x.rs"@,
            lower_spec_inputs(c, on, Seq::empty()),
            seq![isa_file(c, "s390x"@, "inst.isle"@), isa_file(c, "s390x"@, "lower.isle"@)],
            Seq::empty(),
        ),
        lowering(
            c,
            g,
            "riscv64"@,
            "isle_riscv64.rs"@,
            lower_spec_inputs(c, on, Seq::empty()),
            seq![
                isa_file(c, "riscv64"@, "inst.isle"@),
                isa_file(c, "riscv64"@, "inst_vector.isle"@),
                isa_file(c, "riscv64"@, "lower.isle"@),
            ],
            Seq::empty(),
        ),
        lowering(
            c,
            g,
            "sia32"@,
            "isle_sia32.rs"@,
            lower_spec_inputs(c, on, Seq::empty()),
            seq![isa_file(c, "sia32"@, "inst.isle"@), isa_file(c, "sia32"@, "lower.isle"@)],
            Seq::empty(),
        ),
    ] + if features.pulley {
        seq![
            CompilationView {
                name: "pulley"@,
                output: g.push("isle_pulley_shared.rs"@),
                inputs_tracked: seq![
                    src_file(c, "prelude.isle"@),
                    src_file(c, "prelude_lower.isle"@),
                    isa_file(c, "pulley_shared"@, "inst.isle"@),
                    isa_file(c, "pulley_shared"@, "lower.isle"@),
                ],
                inputs_untracked: seq![
                    g.push("numerics.isle"@),
                    g.push("pulley_gen.isle"@),
                    g.push("clif_lower.isle"@),
                ],
            },
        ]
    } else {
        Seq::empty()
    }
}

/// Build a compilation from its parts.
fn compilation(
    name: &str,
    output: IslePath,
    inputs_tracked: Vec<IslePath>,
    inputs_untracked: Vec<IslePath>,
) -> (c: IsleCompilation)
    ensures
        c@ == (CompilationView {
            name: name@,
            output: output@,
            inputs_tracked: paths_view(inputs_tracked@),
            inputs_untracked: paths_view(inputs_untracked@),
        }),
{
    IsleCompilation {
        name: name.to_owned(),
        output,
        tracked_inputs: inputs_tracked,
        untracked_inputs: inputs_untracked,
    }
}

/// Append copies of `more` to `v`.
fn append_paths(v: &mut Vec<IslePath>, more: &Vec<IslePath>)
    ensures
        paths_view(final(v)@) == paths_view(old(v)@) + paths_view(more@),
{
    let mut i: usize = 0;
    while i < more.len()
        invariant
            i <= more@.len(),
            paths_view(v@) == paths_view(old(v)@) + paths_view(more@).subrange(0, i as int),
        decreases more@.len() - i,
    {
        push_path(v, more[i].duplicate());
        assert(paths_view(v@) =~= paths_view(old(v)@) + paths_view(more@).subrange(0, i + 1));
        i = i + 1;
    }
    assert(paths_view(more@).subrange(0, more@.len() as int) =~= paths_view(more@));
}

/// The specification sources of a compilation, for the given feature.
fn spec_inputs_exec(c: &IslePath, on: bool, extra: &[&str]) -> (v: Vec<IslePath>)
    ensures
        paths_view(v@) == spec_inputs(c@, on, extra@),
{
    let mut v: Vec<IslePath> = Vec::new();
    if !on {
        assert(paths_view(v@) =~= spec_inputs(c@, on, extra@));
        return v;
    }
    let spec_dir = c.join("src").join("spec");
    push_path(&mut v, spec_dir.join("prelude_spec.isle"));
    push_path(&mut v, spec_dir.join("inst_specs.isle"));
    push_path(&mut v, spec_dir.join("inst_tags.isle"));
    let ghost pre = paths_view(v@);
    let mut i: usize = 0;
    while i < extra.len()
        invariant
            i <= extra@.len(),
            paths_view(v@) == pre + Seq::new(i as nat, |k: int| spec_file(c@, extra@[k]@)),
            spec_dir@ == c@.push("src"@).push("spec"@),
        decreases extra@.len() - i,
    {
        push_path(&mut v, spec_dir.join(extra[i]));
        assert(paths_view(v@) =~= pre + Seq::new((i + 1) as nat, |k: int| spec_file(c@, extra@[k]@)));
        i = i + 1;
    }
    assert(paths_view(v@) =~= spec_inputs(c@, on, extra@));
    v
}

/// The specification sources of a lowering backend, for the given feature.
fn lower_spec_inputs_exec(c: &IslePath, on: bool, extra: &[&str]) -> (v: Vec<IslePath>)
    ensures
        paths_view(v@) == lower_spec_inputs(c@, on, extra@),
{
    let mut v = spec_inputs_exec(c, on, extra);
    if on {
        push_path(&mut v, c.join("src").join("spec").join("prelude_lower_spec.isle"));
    }
    assert(paths_view(v@) =~= lower_spec_inputs(c@, on, extra@));
    v
}

/// The compilation of a lowering backend.
fn lowering_compilation(
    c: &IslePath,
    g: &IslePath,
    name: &str,
    output: &str,
    specs: Vec<IslePath>,
    own: Vec<IslePath>,
    extra_untracked: Vec<IslePath>,
) -> (r: IsleCompilation)
    ensures
        r@ == lowering(
            c@,
            g@,
            name@,
            output@,
            paths_view(specs@),
            paths_view(own@),
            paths_view(extra_untracked@),
        ),
{
    let src = c.join("src");
    let mut inputs = paths_of(src.join("prelude.isle"), src.join("prelude_lower.isle"));
    append_paths(&mut inputs, &specs);
    append_paths(&mut inputs, &own);
    let mut generated = paths_of(g.join("numerics.isle"), g.join("clif_lower.isle"));
    append_paths(&mut generated, &extra_untracked);
    let r = compilation(name, g.join(output), inputs, generated);
    assert(r@.inputs_tracked =~= lowering(
        c@,
        g@,
        name@,
        output@,
        paths_view(specs@),
        paths_view(own@),
        paths_view(extra_untracked@),
    ).inputs_tracked);
    r
}

/// The paths `base/src/isa/<isa>/<a>` and `base/src/isa/<isa>/<b>`.
fn isa_files(c: &IslePath, isa: &str, a: &str, b: &str) -> (v: Vec<IslePath>)
    ensures
        paths_view(v@) == seq![isa_file(c@, isa@, a@), isa_file(c@, isa@, b@)],
{
    let dir = c.join("src").join("isa").join(isa);
    paths_of(dir.join(a), dir.join(b))
}

/// Construct the list of ISLE compilation units for a build with the given
/// optional features.
#[verifier::rlimit(30)]
pub fn get_isle_compilations_with(
    codegen_crate_dir: &IslePath,
    gen_dir: &IslePath,
    features: IsleFeatures,
) -> (r: IsleCompilations)
    ensures
        r@ == isle_compilations(codegen_crate_dir@, gen_dir@, features),
{
    let c = codegen_crate_dir;
    let g = gen_dir;
    let on = features.spec;
    let src = c.join("src");
    let fp_state: [&str; 2] = ["fpconst.isle", "state.isle"];
    assert(fp_state@ =~= seq!["fpconst.isle", "state.isle"]);
    let none: [&str; 0] = [];
    assert(none@ =~= Seq::<&str>::empty());

    let mut opt_inputs = paths_of(src.join("prelude.isle"), src.join("prelude_opt.isle"));
    let opt_extra: [&str; 2] = ["fpconst.isle", "opt.isle"];
    assert(opt_extra@ =~= seq!["fpconst.isle", "opt.isle"]);
    append_paths(&mut opt_inputs, &spec_inputs_exec(c, on, &opt_extra));
    let opts = src.join("opts");
    push_path(&mut opt_inputs, opts.join("arithmetic.isle"));
    push_path(&mut opt_inputs, opts.join("bitops.isle"));
    push_path(&mut opt_inputs, opts.join("cprop.isle"));
    push_path(&mut opt_inputs, opts.join("extends.isle"));
    push_path(&mut opt_inputs, opts.join("icmp.isle"));
    push_path(&mut opt_inputs, opts.join("remat.isle"));
    push_path(&mut opt_inputs, opts.join("selects.isle"));
    push_path(&mut opt_inputs, opts.join("shifts.isle"));
    push_path(&mut opt_inputs, opts.join("skeleton.isle"));
    push_path(&mut opt_inputs, opts.join("spaceship.isle"));
    push_path(&mut opt_inputs, opts.join("spectre.isle"));
    push_path(&mut opt_inputs, opts.join("vector.isle"));
    let opt = compilation(
        "opt",
        g.join("isle_opt.rs"),
        opt_inputs,
        paths_of(g.join("numerics.isle"), g.join("clif_opt.isle")),
    );

    let mut x64_extra: Vec<IslePath> = Vec::new();
    push_path(&mut x64_extra, g.join("assembler.isle"));
    let x64 = lowering_compilation(
        c,
        g,
        "x64",
        "isle_x64.rs",
        lower_spec_inputs_exec(c, on, &fp_state),
        isa_files(c, "x64", "inst.isle", "lower.isle"),
        x64_extra,
    );

    let mut aarch64_own = isa_files(c, "aarch64", "inst.isle", "inst_neon.isle");
    let aarch64_dir = src.join("isa").join("aarch64");
    if on {
        push_path(&mut aarch64_own, aarch64_dir.join("spec"));
    }
    push_path(&mut aarch64_own, aarch64_dir.join("lower.isle"));
    push_path(&mut aarch64_own, aarch64_dir.join("lower_dynamic_neon.isle"));
    let aarch64 = lowering_compilation(
        c,
        g,
        "aarch64",
        "isle_aarch64.rs",
        lower_spec_inputs_exec(c, on, &fp_state),
        aarch64_own,
        Vec::new(),
    );

    let s390x = lowering_compilation(
        c,
        g,
        "s390x",
        "isle_s390x.rs",
        lower_spec_inputs_exec(c, on, &none),
        isa_files(c, "s390x", "inst.isle", "lower.isle"),
        Vec::new(),
    );

    let mut riscv_own = isa_files(c, "riscv64", "inst.isle", "inst_vector.isle");
    push_path(&mut riscv_own, src.join("isa").join("riscv64").join("lower.isle"));
    let riscv64 = lowering_compilation(
        c,
        g,
        "riscv64",
        "isle_riscv64.rs",
        lower_spec_inputs_exec(c, on, &none),
        riscv_own,
        Vec::new(),
    );

    let sia32 = lowering_compilation(
        c,
        g,
        "sia32",
        "isle_sia32.rs",
        lower_spec_inputs_exec(c, on, &none),
        isa_files(c, "sia32", "inst.isle", "lower.isle"),
        Vec::new(),
    );

    let mut items: Vec<IsleCompilation> = Vec::new();
    items.push(opt);
    items.push(x64);
    items.push(aarch64);
    items.push(s390x);
    items.push(riscv64);
    items.push(sia32);
    if features.pulley {
        let mut pulley_inputs = paths_of(src.join("prelude.isle"), src.join("prelude_lower.isle"));
        let pulley_dir = src.join("isa").join("pulley_shared");
        push_path(&mut pulley_inputs, pulley_dir.join("inst.isle"));
        push_path(&mut pulley_inputs, pulley_dir.join("lower.isle"));
        let mut pulley_generated = paths_of(g.join("numerics.isle"), g.join("pulley_gen.isle"));
        push_path(&mut pulley_generated, g.join("clif_lower.isle"));
        items.push(compilation("pulley", g.join("isle_pulley_shared.rs"), pulley_inputs, pulley_generated));
    }
    let r = IsleCompilations { items };
    proof {
        let want = isle_compilations(c@, g@, features);
        assert(r@.len() == want.len());
        assert forall|k: int| 0 <= k < want.len() implies #[trigger] r@[k] == want[k] by {
            assert(r@[k].inputs_tracked =~= want[k].inputs_tracked);
            assert(r@[k].inputs_untracked =~= want[k].inputs_untracked);
        }
        assert(r@ =~= want);
    }
    r
}

/// Construct the list of ISLE compilation units for a build without the
/// optional `spec` and `pulley` features.
pub fn get_isle_compilations(codegen_crate_dir: &IslePath, gen_dir: &IslePath) -> (r: IsleCompilations)
    ensures
        r@ == isle_compilations(codegen_crate_dir@, gen_dir@, IsleFeatures { spec: false, pulley: false }),
{
    get_isle_compilations_with(codegen_crate_dir, gen_dir, IsleFeatures { spec: false, pulley: false })
}

/// Whether the list holds a compilation named `isa`, and every compilation
/// of that name writes `g/<output>` from the shared preludes and each of the
/// backend's own sources `c/src/isa/<isa>/<file>`.
pub open spec fn builds_backend(
    comps: Seq<CompilationView>,
    c: Seq<Seq<char>>,
    g: Seq<Seq<char>>,
    isa: Seq<char>,
    output: Seq<char>,
    own: Seq<Seq<char>>,
) -> bool {
    &&& exists|i: int| 0 <= i < comps.len() && (#[trigger] comps[i]).name == isa
    &&& forall|i: int|
        0 <= i < comps.len() && (#[trigger] comps[i]).name == isa ==> {
            &&& comps[i].output == g.push(output)
            &&& comps[i].inputs_tracked.contains(src_file(c, "prelude.isle"@))
            &&& comps[i].inputs_tracked.contains(src_file(c, "prelude_lower.isle"@))
            &&& forall|k: int|
                0 <= k < own.len() ==> comps[i].inputs_tracked.contains(isa_file(c, isa, #[trigger] own[k]))
        }
}

proof fn lemma_lowering_holds(
    c: Seq<Seq<char>>,
    g: Seq<Seq<char>>,
    name: Seq<char>,
    output: Seq<char>,
    specs: Seq<Seq<Seq<char>>>,
    own: Seq<Seq<Seq<char>>>,
    extra: Seq<Seq<Seq<char>>>,
    files: Seq<Seq<char>>,
)
    requires
        forall|k: int| 0 <= k < files.len() ==> own.contains(isa_file(c, name, #[trigger] files[k])),
    ensures
        ({
            let v = lowering(c, g, name, output, specs, own, extra);
            &&& v.name == name
            &&& v.output == g.push(output)
            &&& v.inputs_tracked.contains(src_file(c, "prelude.isle"@))
            &&& v.inputs_tracked.contains(src_file(c, "prelude_lower.isle"@))
            &&& forall|k: int| 0 <= k < files.len() ==> v.inputs_tracked.contains(isa_file(c, name, #[trigger] files[k]))
        }),
{
    let v = lowering(c, g, name, output, specs, own, extra);
    let pre = seq![src_file(c, "prelude.isle"@), src_file(c, "prelude_lower.isle"@)];
    assert(v.inputs_tracked == pre + specs + own);
    assert(v.inputs_tracked[0] == src_file(c, "prelude.isle"@));
    assert(v.inputs_tracked[1] == src_file(c, "prelude_lower.isle"@));
    assert forall|k: int| 0 <= k < files.len() implies v.inputs_tracked.contains(isa_file(c, name, #[trigger] files[k])) by {
        let x = isa_file(c, name, files[k]);
        let j = choose|j: int| 0 <= j < own.len() && own[j] == x;
        assert(v.inputs_tracked[pre.len() + specs.len() + j] == x);
    }
}

/// Every lowering backend is compiled from the shared preludes and its own
/// sources: x64 from `inst.isle` and `lower.isle`; aarch64 also from
/// `inst_neon.isle` and `lower_dynamic_neon.isle`; s390x from `inst.isle` and
/// `lower.isle`; riscv64 also from `inst_vector.isle`; sia32 from `inst.isle`
/// and `lower.isle`; each into `isle_<isa>.rs` under the generated directory,
/// whatever the features.
pub proof fn lemma_backends_compile_their_sources(c: Seq<Seq<char>>, g: Seq<Seq<char>>, features: IsleFeatures)
    ensures
        builds_backend(
            isle_compilations(c, g, features),
            c,
            g,
            "x64"@,
            "isle_x64.rs"@,
            seq!["inst.isle"@, "lower.isle"@],
        ),
        builds_backend(
            isle_compilations(c, g, features),
            c,
            g,
            "aarch64"@,
            "isle_aarch64.rs"@,
            seq!["inst.isle"@, "inst_neon.isle"@, "lower.isle"@, "lower_dynamic_neon.isle"@],
        ),
        builds_backend(
            isle_compilations(c, g, features),
            c,
            g,
            "s390x"@,
            "isle_s390x.rs"@,
            seq!["inst.isle"@, "lower.isle"@],
        ),
        builds_backend(
            isle_compilations(c, g, features),
            c,
            g,
            "riscv64"@,
            "isle_riscv64.rs"@,
            seq!["inst.isle"@, "inst_vector.isle"@, "lower.isle"@],
        ),
        builds_backend(
            isle_compilations(c, g, features),
            c,
            g,
            "sia32"@,
            "isle_sia32.rs"@,
            seq!["inst.isle"@, "lower.isle"@],
        ),
{
    reveal_strlit("opt");
    reveal_strlit("x64");
    reveal_strlit("aarch64");
    reveal_strlit("s390x");
    reveal_strlit("riscv64");
    reveal_strlit("sia32");
    reveal_strlit("pulley");
    assert("x64"@[0] != "opt"@[0]);
    assert("aarch64"@[0] != "riscv64"@[0]);
    assert("s390x"@[1] != "sia32"@[1]);
    assert("x64"@ != "opt"@);
    assert("aarch64"@ != "riscv64"@);
    assert("s390x"@ != "sia32"@);
    let comps = isle_compilations(c, g, features);
    let on = features.spec;
    let fp_state = seq!["fpconst.isle", "state.isle"];
    // x64
    let x64_files = seq!["inst.isle"@, "lower.isle"@];
    let x64_own = seq![isa_file(c, "x64"@, "inst.isle"@), isa_file(c, "x64"@, "lower.isle"@)];
    assert(x64_own[0] == isa_file(c, "x64"@, x64_files[0]) && x64_own[1] == isa_file(c, "x64"@, x64_files[1]));
    lemma_lowering_holds(c, g, "x64"@, "isle_x64.rs"@, lower_spec_inputs(c, on, fp_state), x64_own, seq![g.push("assembler.isle"@)], x64_files);
    // aarch64
    let a_files = seq!["inst.isle"@, "inst_neon.isle"@, "lower.isle"@, "lower_dynamic_neon.isle"@];
    let a_mid: Seq<Seq<Seq<char>>> = if on {
        seq![isa_file(c, "aarch64"@, "spec"@)]
    } else {
        Seq::empty()
    };
    let a_own = seq![isa_file(c, "aarch64"@, "inst.isle"@), isa_file(c, "aarch64"@, "inst_neon.isle"@)] + a_mid + seq![
        isa_file(c, "aarch64"@, "lower.isle"@),
        isa_file(c, "aarch64"@, "lower_dynamic_neon.isle"@),
    ];
    assert(a_own[0] == isa_file(c, "aarch64"@, a_files[0]));
    assert(a_own[1] == isa_file(c, "aarch64"@, a_files[1]));
    assert(a_own[2 + a_mid.len() as int] == isa_file(c, "aarch64"@, a_files[2]));
    assert(a_own[3 + a_mid.len() as int] == isa_file(c, "aarch64"@, a_files[3]));
    lemma_lowering_holds(c, g, "aarch64"@, "isle_aarch64.rs"@, lower_spec_inputs(c, on, fp_state), a_own, Seq::empty(), a_files);
    // s390x
    let s_files = seq!["inst.isle"@, "lower.isle"@];
    let s_own = seq![isa_file(c, "s390x"@, "inst.isle"@), isa_file(c, "s390x"@, "lower.isle"@)];
    assert(s_own[0] == isa_file(c, "s390x"@, s_files[0]) && s_own[1] == isa_file(c, "s390x"@, s_files[1]));
    lemma_lowering_holds(c, g, "s390x"@, "isle_s390x.rs"@, lower_spec_inputs(c, on, Seq::empty()), s_own, Seq::empty(), s_files);
    // riscv64
    let r_files = seq!["inst.isle"@, "inst_vector.isle"@, "lower.isle"@];
    let r_own = seq![
        isa_file(c, "riscv64"@, "inst.isle"@),
        isa_file(c, "riscv64"@, "inst_vector.isle"@),
        isa_file(c, "riscv64"@, "lower.isle"@),
    ];
    assert(r_own[0] == isa_file(c, "riscv64"@, r_files[0]) && r_own[1] == isa_file(c, "riscv64"@, r_files[1])
        && r_own[2] == isa_file(c, "riscv64"@, r_files[2]));
    lemma_lowering_holds(c, g, "riscv64"@, "isle_riscv64.rs"@, lower_spec_inputs(c, on, Seq::empty()), r_own, Seq::empty(), r_files);
    // sia32
    let t_files = seq!["inst.isle"@, "lower.isle"@];
    let t_own = seq![isa_file(c, "sia32"@, "inst.isle"@), isa_file(c, "sia32"@, "lower.isle"@)];
    assert(t_own[0] == isa_file(c, "sia32"@, t_files[0]) && t_own[1] == isa_file(c, "sia32"@, t_files[1]));
    lemma_lowering_holds(c, g, "sia32"@, "isle_sia32.rs"@, lower_spec_inputs(c, on, Seq::empty()), t_own, Seq::empty(), t_files);
    assert(comps[0].name == "opt"@);
    assert(comps[1] == lowering(c, g, "x64"@, "isle_x64.rs"@, lower_spec_inputs(c, on, fp_state), x64_own, seq![g.push("assembler.isle"@)]));
    assert(comps[2] == lowering(c, g, "aarch64"@, "isle_aarch64.rs"@, lower_spec_inputs(c, on, fp_state), a_own, Seq::empty()));
    assert(comps[3] == lowering(c, g, "s390x"@, "isle_s390x.rs"@, lower_spec_inputs(c, on, Seq::empty()), s_own, Seq::empty()));
    assert(comps[4] == lowering(c, g, "riscv64"@, "isle_riscv64.rs"@, lower_spec_inputs(c, on, Seq::empty()), r_own, Seq::empty()));
    assert(comps[5] == lowering(c, g, "sia32"@, "isle_sia32.rs"@, lower_spec_inputs(c, on, Seq::empty()), t_own, Seq::empty()));
    assert(comps.len() == 6 || (comps.len() == 7 && comps[6].name == "pulley"@));
}

/// The optimisation rule files of the mid-end, in `src/opts`.
pub open spec fn opt_rule_files() -> Seq<Seq<char>> {
    seq![
        "arithmetic.isle"@,
        "bitops.isle"@,
        "cprop.isle"@,
        "extends.isle"@,
        "icmp.isle"@,
        "remat.isle"@,
        "selects.isle"@,
        "shifts.isle"@,
        "skeleton.isle"@,
        "spaceship.isle"@,
        "spectre.isle"@,
        "vector.isle"@,
    ]
}

/// The mid-end optimiser comes first and is compiled into `isle_opt.rs` from
/// the prelude, the optimisation prelude and every rule file of
/// `src/opts`; the Pulley compilation exists exactly when its feature is on,
/// and is then compiled into `isle_pulley_shared.rs` from the preludes and
/// the shared Pulley `inst.isle` and `lower.isle`.
pub proof fn lemma_optimiser_and_pulley_sources(c: Seq<Seq<char>>, g: Seq<Seq<char>>, features: IsleFeatures)
    ensures
        ({
            let comps = isle_compilations(c, g, features);
            let opts = c.push("src"@).push("opts"@);
            &&& comps[0].name == "opt"@
            &&& comps[0].output == g.push("isle_opt.rs"@)
            &&& comps[0].inputs_tracked.contains(src_file(c, "prelude.isle"@))
            &&& comps[0].inputs_tracked.contains(src_file(c, "prelude_opt.isle"@))
            &&& forall|k: int|
                0 <= k < opt_rule_files().len() ==> comps[0].inputs_tracked.contains(
                    opts.push(#[trigger] opt_rule_files()[k]),
                )
            &&& features.pulley <==> exists|i: int| 0 <= i < comps.len() && (#[trigger] comps[i]).name == "pulley"@
            &&& forall|i: int|
                0 <= i < comps.len() && (#[trigger] comps[i]).name == "pulley"@ ==> {
                    &&& comps[i].output == g.push("isle_pulley_shared.rs"@)
                    &&& comps[i].inputs_tracked.contains(src_file(c, "prelude.isle"@))
                    &&& comps[i].inputs_tracked.contains(src_file(c, "prelude_lower.isle"@))
                    &&& comps[i].inputs_tracked.contains(isa_file(c, "pulley_shared"@, "inst.isle"@))
                    &&& comps[i].inputs_tracked.contains(isa_file(c, "pulley_shared"@, "lower.isle"@))
                }
        }),
{
    reveal_strlit("opt");
    reveal_strlit("x64");
    reveal_strlit("aarch64");
    reveal_strlit("s390x");
    reveal_strlit("riscv64");
    reveal_strlit("sia32");
    reveal_strlit("pulley");
    let comps = isle_compilations(c, g, features);
    let on = features.spec;
    let opts = c.push("src"@).push("opts"@);
    let head = seq![src_file(c, "prelude.isle"@), src_file(c, "prelude_opt.isle"@)];
    let specs = spec_inputs(c, on, seq!["fpconst.isle", "opt.isle"]);
    assert(comps[0].inputs_tracked == head + specs + opt_rules(c));
    assert(comps[0].inputs_tracked[0] == src_file(c, "prelude.isle"@));
    assert(comps[0].inputs_tracked[1] == src_file(c, "prelude_opt.isle"@));
    assert forall|k: int| 0 <= k < opt_rule_files().len() implies comps[0].inputs_tracked.contains(
        opts.push(#[trigger] opt_rule_files()[k]),
    ) by {
        assert(opt_rules(c)[k] == opts.push(opt_rule_files()[k]));
        assert(comps[0].inputs_tracked[head.len() + specs.len() + k] == opt_rules(c)[k]);
    }
    assert("x64"@[0] != "pulley"@[0] && "aarch64"@[0] != "pulley"@[0] && "s390x"@[0] != "pulley"@[0]);
    assert("riscv64"@[0] != "pulley"@[0] && "sia32"@[0] != "pulley"@[0] && "opt"@[0] != "pulley"@[0]);
    assert(comps[1].name == "x64"@ && comps[2].name == "aarch64"@ && comps[3].name == "s390x"@);
    assert(comps[4].name == "riscv64"@ && comps[5].name == "sia32"@);
    if features.pulley {
        assert(comps.len() == 7);
        let p = comps[6];
        assert(p.name == "pulley"@);
        assert(p.inputs_tracked[0] == src_file(c, "prelude.isle"@));
        assert(p.inputs_tracked[1] == src_file(c, "prelude_lower.isle"@));
        assert(p.inputs_tracked[2] == isa_file(c, "pulley_shared"@, "inst.isle"@));
        assert(p.inputs_tracked[3] == isa_file(c, "pulley_shared"@, "lower.isle"@));
    } else {
        assert(comps.len() == 6);
    }
}

} // verus!
