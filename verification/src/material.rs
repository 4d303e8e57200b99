//! The compiled-shader container as far as the compatibility fixes read and
//! change it, and the fixes themselves.

use crate::bytes::{append, bytes_eq, first_match, lemma_first_match_holds, replace_bytes, replaced};
use crate::version::{
    first_listed, first_parsing, flag_of, target_of, Detection, FormatVersion, VersionState,
};
use vstd::prelude::*;
use vstd::string::StringSliceAdditionalSpecFns;

verus! {

/// The pipeline stage that a piece of shader code is compiled for.
#[derive(Clone, Copy, Debug, PartialEq, Eq, Structural)]
pub enum ShaderStage {
    Vertex,
    Fragment,
    Compute,
    Unknown,
}

/// The code of one stage of one variant.
#[derive(Clone, Debug, PartialEq, Eq)]
pub struct ShaderCode {
    /// The stage the code runs in.
    pub stage: ShaderStage,
    /// The platform the code was compiled for.
    pub platform_name: Vec<u8>,
    /// The shader code inside the stage's sub-blob; `None` where the
    /// sub-blob could not be decoded.
    pub code: Option<Vec<u8>>,
    /// Set on every sub-blob that a fix went over: its bytes have to be
    /// encoded anew from `code`.
    pub touched: bool,
}

/// One variant of a pass: the code of its stages.
#[derive(Clone, Debug, PartialEq, Eq)]
pub struct Variant {
    pub shader_codes: Vec<ShaderCode>,
}

/// A named render pass with its variants.
#[derive(Clone, Debug, PartialEq, Eq)]
pub struct Pass {
    pub name: Vec<u8>,
    pub variants: Vec<Variant>,
}

/// A compiled material: its name and its passes.
#[derive(Clone, Debug, PartialEq, Eq)]
pub struct ShaderContainer {
    pub name: Vec<u8>,
    pub passes: Vec<Pass>,
}

/// What a [`ShaderCode`] holds.
pub struct ShaderCodeView {
    pub stage: ShaderStage,
    pub platform_name: Seq<u8>,
    pub code: Option<Seq<u8>>,
    pub touched: bool,
}

/// What a [`Variant`] holds.
pub struct VariantView {
    pub shader_codes: Seq<ShaderCodeView>,
}

/// What a [`Pass`] holds.
pub struct PassView {
    pub name: Seq<u8>,
    pub variants: Seq<VariantView>,
}

/// What a [`ShaderContainer`] holds.
pub struct ContainerView {
    pub name: Seq<u8>,
    pub passes: Seq<PassView>,
}

impl View for ShaderCode {
    type V = ShaderCodeView;

    open spec fn view(&self) -> ShaderCodeView {
        ShaderCodeView {
            stage: self.stage,
            platform_name: self.platform_name@,
            code: match self.code {
                Some(code) => Some(code@),
                None => None,
            },
            touched: self.touched,
        }
    }
}

impl View for Variant {
    type V = VariantView;

    open spec fn view(&self) -> VariantView {
        VariantView { shader_codes: self.shader_codes@.map_values(|entry: ShaderCode| entry@) }
    }
}

impl View for Pass {
    type V = PassView;

    open spec fn view(&self) -> PassView {
        PassView {
            name: self.name@,
            variants: self.variants@.map_values(|variant: Variant| variant@),
        }
    }
}

impl View for ShaderContainer {
    type V = ContainerView;

    open spec fn view(&self) -> ContainerView {
        ContainerView { name: self.name@, passes: self.passes@.map_values(|pass: Pass| pass@) }
    }
}

/// One of the two compatibility fixes.
#[derive(Clone, Copy, Debug, PartialEq, Eq, Structural)]
pub enum Fix {
    /// Unpacks the light-map coordinate that newer clients hand to vertex
    /// shaders in packed form.
    Lightmap,
    /// Makes fragment shaders of old containers sample their textures at
    /// the base level.
    Sampler,
}

impl Fix {
    /// The text in front of which the fix puts its own.
    pub open spec fn marker(self) -> Seq<u8> {
        match self {
            Fix::Lightmap => "void main".spec_bytes(),
            Fix::Sampler => "void main ()".spec_bytes(),
        }
    }

    /// The text that the fix puts in front of the marker.
    pub open spec fn inserted(self) -> Seq<u8> {
        match self {
            Fix::Lightmap =>
                "\n#define a_texcoord1 vec2(fract(a_texcoord1.x*15.9375)+0.0001,floor(a_texcoord1.x*15.9375)*0.0625+0.0001)\n".spec_bytes(),
            Fix::Sampler =>
                "\n#if __VERSION__ >= 300\n #define texture(tex,uv) textureLod(tex,uv,0.0)\n#else\n #define texture2D(tex,uv) texture2DLod(tex,uv,0.0)\n#endif\n".spec_bytes(),
        }
    }

    /// What takes the marker's place: the inserted text and the marker again.
    pub open spec fn replacement(self) -> Seq<u8> {
        self.inserted() + self.marker()
    }

    /// Whether the fix goes into the pass called `pass_name`.
    pub open spec fn covers_pass(self, pass_name: Seq<u8>) -> bool {
        match self {
            Fix::Lightmap => true,
            Fix::Sampler => pass_name == "AlphaTest".spec_bytes() || pass_name
                == "Opaque".spec_bytes(),
        }
    }

    /// Whether the fix goes over code of this stage and platform.
    pub open spec fn covers_stage(self, stage: ShaderStage, platform_name: Seq<u8>) -> bool {
        match self {
            Fix::Lightmap => stage == ShaderStage::Vertex,
            Fix::Sampler => stage == ShaderStage::Fragment && platform_name
                == "ESSL_100".spec_bytes(),
        }
    }

    /// `code` after the fix went over it: the inserted text stands in front
    /// of the first marker; code without the marker is as it was.
    pub open spec fn patched(self, code: Seq<u8>) -> Seq<u8> {
        replaced(code, self.marker(), self.replacement())
    }

    /// The text in front of which the fix puts its own.
    pub fn marker_bytes(self) -> (marker: &'static [u8])
        ensures
            marker@ == self.marker(),
    {
        match self {
            Fix::Lightmap => "void main".as_bytes(),
            Fix::Sampler => "void main ()".as_bytes(),
        }
    }

    /// The text that the fix puts in front of the marker.
    pub fn inserted_bytes(self) -> (inserted: &'static [u8])
        ensures
            inserted@ == self.inserted(),
    {
        match self {
            Fix::Lightmap =>
                "\n#define a_texcoord1 vec2(fract(a_texcoord1.x*15.9375)+0.0001,floor(a_texcoord1.x*15.9375)*0.0625+0.0001)\n".as_bytes(),
            Fix::Sampler =>
                "\n#if __VERSION__ >= 300\n #define texture(tex,uv) textureLod(tex,uv,0.0)\n#else\n #define texture2D(tex,uv) texture2DLod(tex,uv,0.0)\n#endif\n".as_bytes(),
        }
    }

    /// What takes the marker's place: the inserted text and the marker again.
    pub fn replacement_bytes(self) -> (replacement: Vec<u8>)
        ensures
            replacement@ == self.replacement(),
    {
        let mut replacement: Vec<u8> = Vec::new();
        append(&mut replacement, self.inserted_bytes());
        append(&mut replacement, self.marker_bytes());
        replacement
    }

    /// Whether the fix goes into the pass called `pass_name`.
    pub fn goes_into_pass(self, pass_name: &[u8]) -> (yes: bool)
        ensures
            yes == self.covers_pass(pass_name@),
    {
        match self {
            Fix::Lightmap => true,
            Fix::Sampler => bytes_eq(pass_name, "AlphaTest".as_bytes()) || bytes_eq(
                pass_name,
                "Opaque".as_bytes(),
            ),
        }
    }

    /// Whether the fix goes over code of this stage and platform.
    pub fn goes_over_stage(self, stage: ShaderStage, platform_name: &[u8]) -> (yes: bool)
        ensures
            yes == self.covers_stage(stage, platform_name@),
    {
        match self {
            Fix::Lightmap => stage == ShaderStage::Vertex,
            Fix::Sampler => stage == ShaderStage::Fragment && bytes_eq(
                platform_name,
                "ESSL_100".as_bytes(),
            ),
        }
    }
}

impl ShaderCodeView {
    /// The entry after `fix` went through the variant that holds it.
    pub open spec fn with_fix(self, fix: Fix) -> ShaderCodeView {
        if fix.covers_stage(self.stage, self.platform_name) {
            match self.code {
                Some(code) => ShaderCodeView {
                    code: Some(fix.patched(code)),
                    touched: true,
                    ..self
                },
                None => self,
            }
        } else {
            self
        }
    }
}

impl VariantView {
    /// The variant after `fix` went through it.
    pub open spec fn with_fix(self, fix: Fix) -> VariantView {
        VariantView {
            shader_codes: self.shader_codes.map_values(|entry: ShaderCodeView| entry.with_fix(fix)),
        }
    }
}

impl PassView {
    /// The pass after `fix` went through the container that holds it.
    pub open spec fn with_fix(self, fix: Fix) -> PassView {
        if fix.covers_pass(self.name) {
            PassView {
                variants: self.variants.map_values(|variant: VariantView| variant.with_fix(fix)),
                ..self
            }
        } else {
            self
        }
    }
}

impl ContainerView {
    /// The container after `fix` went through it.
    pub open spec fn with_fix(self, fix: Fix) -> ContainerView {
        ContainerView { passes: self.passes.map_values(|pass: PassView| pass.with_fix(fix)), ..self }
    }
}

fn fix_code(entry: &mut ShaderCode, fix: Fix, replace_with: &[u8])
    requires
        replace_with@ == fix.replacement(),
    ensures
        final(entry)@ == old(entry)@.with_fix(fix),
{
    if fix.goes_over_stage(entry.stage, entry.platform_name.as_slice()) {
        match &mut entry.code {
            Some(code) => {
                replace_bytes(code, fix.marker_bytes(), replace_with);
                entry.touched = true;
            },
            None => {},
        }
    }
}

fn fix_variant(variant: &mut Variant, fix: Fix, replace_with: &[u8])
    requires
        replace_with@ == fix.replacement(),
    ensures
        final(variant)@ == old(variant)@.with_fix(fix),
{
    let mut i: usize = 0;
    while i < variant.shader_codes.len()
        invariant
            replace_with@ == fix.replacement(),
            i <= variant.shader_codes@.len(),
            variant.shader_codes@.len() == old(variant).shader_codes@.len(),
            forall|k: int|
                0 <= k < i ==> (#[trigger] variant.shader_codes@[k])@ == old(
                    variant,
                ).shader_codes@[k]@.with_fix(fix),
            forall|k: int|
                i <= k < variant.shader_codes@.len() ==> #[trigger] variant.shader_codes@[k] == old(
                    variant,
                ).shader_codes@[k],
        decreases variant.shader_codes@.len() - i,
    {
        fix_code(&mut variant.shader_codes[i], fix, replace_with);
        i += 1;
    }
    assert(variant@.shader_codes =~= old(variant)@.with_fix(fix).shader_codes);
}

fn fix_pass(pass: &mut Pass, fix: Fix, replace_with: &[u8])
    requires
        replace_with@ == fix.replacement(),
    ensures
        final(pass)@ == old(pass)@.with_fix(fix),
{
    if !fix.goes_into_pass(pass.name.as_slice()) {
        return ;
    }
    let mut i: usize = 0;
    while i < pass.variants.len()
        invariant
            replace_with@ == fix.replacement(),
            i <= pass.variants@.len(),
            pass.name == old(pass).name,
            pass.variants@.len() == old(pass).variants@.len(),
            forall|k: int|
                0 <= k < i ==> (#[trigger] pass.variants@[k])@ == old(pass).variants@[k]@.with_fix(
                    fix,
                ),
            forall|k: int|
                i <= k < pass.variants@.len() ==> #[trigger] pass.variants@[k] == old(
                    pass,
                ).variants@[k],
        decreases pass.variants@.len() - i,
    {
        fix_variant(&mut pass.variants[i], fix, replace_with);
        i += 1;
    }
    assert(pass@.variants =~= old(pass)@.with_fix(fix).variants);
}

/// Sends `fix` through the container: in every pass that the fix goes into,
/// every stage that it goes over has the fix's text put in front of the first
/// marker in its code and is marked as touched. Code without the marker
/// stays as it is, and so does a sub-blob that could not be decoded.
pub fn apply_fix(materialbin: &mut ShaderContainer, fix: Fix)
    ensures
        final(materialbin)@ == old(materialbin)@.with_fix(fix),
{
    let replace_with = fix.replacement_bytes();
    let mut i: usize = 0;
    while i < materialbin.passes.len()
        invariant
            replace_with@ == fix.replacement(),
            i <= materialbin.passes@.len(),
            materialbin.name == old(materialbin).name,
            materialbin.passes@.len() == old(materialbin).passes@.len(),
            forall|k: int|
                0 <= k < i ==> (#[trigger] materialbin.passes@[k])@ == old(
                    materialbin,
                ).passes@[k]@.with_fix(fix),
            forall|k: int|
                i <= k < materialbin.passes@.len() ==> #[trigger] materialbin.passes@[k] == old(
                    materialbin,
                ).passes@[k],
        decreases materialbin.passes@.len() - i,
    {
        fix_pass(&mut materialbin.passes[i], fix, replace_with.as_slice());
        i += 1;
    }
    assert(materialbin@.passes =~= old(materialbin)@.with_fix(fix).passes);
}

/// Puts the light-map definition in front of `void main` in the code of
/// every vertex stage.
pub fn handle_lightmaps(materialbin: &mut ShaderContainer)
    ensures
        final(materialbin)@ == old(materialbin)@.with_fix(Fix::Lightmap),
{
    apply_fix(materialbin, Fix::Lightmap)
}

/// Puts the texture-sampling definitions in front of `void main ()` in the
/// code of every fragment stage for ESSL_100 in the passes AlphaTest and
/// Opaque.
pub fn handle_samplers(materialbin: &mut ShaderContainer)
    ensures
        final(materialbin)@ == old(materialbin)@.with_fix(Fix::Sampler),
{
    apply_fix(materialbin, Fix::Sampler)
}

/// Which fixes are switched on, and under which versions a container is
/// tried, in order of preference.
#[derive(Clone, Debug, PartialEq, Eq)]
pub struct FixOptions {
    pub apply_lightmap_fix: bool,
    pub apply_sampler_fix: bool,
    pub source_versions: Vec<FormatVersion>,
}

/// What a [`FixOptions`] holds.
pub struct FixOptionsView {
    pub apply_lightmap_fix: bool,
    pub apply_sampler_fix: bool,
    pub source_versions: Seq<FormatVersion>,
}

impl View for FixOptions {
    type V = FixOptionsView;

    open spec fn view(&self) -> FixOptionsView {
        FixOptionsView {
            apply_lightmap_fix: self.apply_lightmap_fix,
            apply_sampler_fix: self.apply_sampler_fix,
            source_versions: self.source_versions@,
        }
    }
}

/// The light-map fix is called for: the client shows the dithering feature,
/// the container was written for another version than the client reads, the
/// material is RenderChunk or RenderChunkPrepass, and the fix is switched on.
pub open spec fn needs_lightmap_fix(
    opts: FixOptionsView,
    feature_flag: bool,
    source: FormatVersion,
    target: FormatVersion,
    name: Seq<u8>,
) -> bool {
    &&& feature_flag
    &&& source != target
    &&& (name == "RenderChunk".spec_bytes() || name == "RenderChunkPrepass".spec_bytes())
    &&& opts.apply_lightmap_fix
}

/// The sampler fix is called for: the material is RenderChunk, the client
/// reads version 1.20.80 or newer, the container was written for 1.19.60 or
/// older, and the fix is switched on.
pub open spec fn needs_sampler_fix(
    opts: FixOptionsView,
    source: FormatVersion,
    target: FormatVersion,
    name: Seq<u8>,
) -> bool {
    &&& name == "RenderChunk".spec_bytes()
    &&& target.rank() >= FormatVersion::V1_20_80.rank()
    &&& source.rank() <= FormatVersion::V1_19_60.rank()
    &&& opts.apply_sampler_fix
}

/// The version under which the material has to be written anew, or `None`
/// where the bytes as loaded are to be kept: where no client version is
/// known, and where the container already has the client's version and no
/// fix is called for.
pub open spec fn rewrite_target(
    opts: FixOptionsView,
    state: Option<Detection>,
    source: FormatVersion,
    name: Seq<u8>,
) -> Option<FormatVersion> {
    match target_of(state) {
        Some(target) => if source == target && !needs_lightmap_fix(
            opts,
            flag_of(state),
            source,
            target,
            name,
        ) && !needs_sampler_fix(opts, source, target, name) {
            None
        } else {
            Some(target)
        },
        None => None,
    }
}

/// The material as [`process_material`] leaves it.
pub open spec fn processed(
    opts: FixOptionsView,
    state: Option<Detection>,
    source: FormatVersion,
    material: ContainerView,
) -> ContainerView {
    match rewrite_target(opts, state, source, material.name) {
        Some(target) => {
            let lit = if needs_lightmap_fix(opts, flag_of(state), source, target, material.name) {
                material.with_fix(Fix::Lightmap)
            } else {
                material
            };
            if needs_sampler_fix(opts, source, target, material.name) {
                lit.with_fix(Fix::Sampler)
            } else {
                lit
            }
        },
        None => material,
    }
}

/// The version under which a container is read: the first of the
/// configured source versions under which its bytes parse.
pub fn source_version(opts: &FixOptions, parses_under: &[FormatVersion]) -> (source: Option<
    FormatVersion,
>)
    ensures
        source == first_listed(opts@.source_versions, parses_under@),
{
    first_parsing(opts.source_versions.as_slice(), parses_under)
}

/// Decides what becomes of a material that was read under `source`, and
/// applies the fixes that are called for. Returns the version under which the
/// material has to be written anew, or `None` where the bytes as loaded are to
/// be kept; the material is then left as it was.
pub fn process_material(
    opts: &FixOptions,
    state: &VersionState,
    source: FormatVersion,
    material: &mut ShaderContainer,
) -> (target: Option<FormatVersion>)
    ensures
        target == rewrite_target(opts@, state@, source, old(material)@.name),
        final(material)@ == processed(opts@, state@, source, old(material)@),
        target is None ==> final(material)@ == old(material)@,
{
    let mcver = match state.version() {
        Some(mcver) => mcver,
        None => {
            return None;
        },
    };
    let is_render_chunk = bytes_eq(material.name.as_slice(), "RenderChunk".as_bytes());
    let lightmap_fix = state.feature_flag() && source != mcver && (is_render_chunk || bytes_eq(
        material.name.as_slice(),
        "RenderChunkPrepass".as_bytes(),
    )) && opts.apply_lightmap_fix;
    let sampler_fix = is_render_chunk && mcver.at_least(FormatVersion::V1_20_80) && source.at_most(
        FormatVersion::V1_19_60,
    ) && opts.apply_sampler_fix;
    if source == mcver && !lightmap_fix && !sampler_fix {
        return None;
    }
    if lightmap_fix {
        handle_lightmaps(material);
    }
    if sampler_fix {
        handle_samplers(material);
    }
    Some(mcver)
}

/// A fix puts its text right in front of the first marker and changes
/// nothing else: the code up to the marker, the marker itself and all that
/// follows it stay as they were. Code without the marker is left alone.
pub proof fn lemma_fix_inserts_before_marker(fix: Fix, code: Seq<u8>)
    ensures
        match first_match(code, fix.marker()) {
            Some(at) => fix.patched(code) == code.take(at) + fix.inserted() + code.skip(at)
                && fix.marker().is_prefix_of(code.skip(at)),
            None => fix.patched(code) == code,
        },
{
    lemma_first_match_holds(code, fix.marker());
    match first_match(code, fix.marker()) {
        Some(at) => {
            let marker = fix.marker();
            let tail = code.skip(at + marker.len());
            assert(code.skip(at) =~= marker + tail);
            assert(fix.patched(code) =~= code.take(at) + fix.inserted() + code.skip(at));
        },
        None => {},
    }
}

/// A material that already has the client's version, with no fix called
/// for, is passed through: nothing is to be written and the material is as
/// it was.
pub proof fn lemma_same_version_passes_through(
    opts: FixOptionsView,
    state: Option<Detection>,
    source: FormatVersion,
    material: ContainerView,
)
    requires
        target_of(state) == Some(source),
        !needs_lightmap_fix(opts, flag_of(state), source, source, material.name),
        !needs_sampler_fix(opts, source, source, material.name),
    ensures
        rewrite_target(opts, state, source, material.name) is None,
        processed(opts, state, source, material) == material,
{
}

/// Where the light-map fix is called for, the code of every vertex stage
/// comes out with the fix's text in front of its first marker, whether or not
/// the sampler fix runs as well.
pub proof fn lemma_lightmap_fix_reaches_vertex_code(
    opts: FixOptionsView,
    state: Option<Detection>,
    source: FormatVersion,
    material: ContainerView,
    pass: int,
    variant: int,
    entry: int,
)
    requires
        target_of(state) matches Some(target) && needs_lightmap_fix(
            opts,
            flag_of(state),
            source,
            target,
            material.name,
        ),
        0 <= pass < material.passes.len(),
        0 <= variant < material.passes[pass].variants.len(),
        0 <= entry < material.passes[pass].variants[variant].shader_codes.len(),
        material.passes[pass].variants[variant].shader_codes[entry].stage == ShaderStage::Vertex,
        material.passes[pass].variants[variant].shader_codes[entry].code is Some,
    ensures
        ({
            let before = material.passes[pass].variants[variant].shader_codes[entry];
            let after = processed(
                opts,
                state,
                source,
                material,
            ).passes[pass].variants[variant].shader_codes[entry];
            &&& after.code == Some(Fix::Lightmap.patched(before.code->0))
            &&& after.touched
            &&& after.stage == before.stage
            &&& after.platform_name == before.platform_name
        }),
{
}

} // verus!
