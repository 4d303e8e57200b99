//! Which logical paths are served from the resource pack, under which pack
//! path, and the one-slot cache of the buffer that was closed last.

use crate::buffer::{Buffer, BufferView, ByteSource};
use crate::bytes::{bytes_eq, ends_with, opt_path_join, starts_with, strip_prefix, without_prefix};
use vstd::prelude::*;
use vstd::slice::{slice_subrange, slice_to_vec};
use vstd::string::StringSliceAdditionalSpecFns;

verus! {

/// The directory that a logical path may start with and that does not count.
pub open spec fn assets_prefix() -> Seq<u8> {
    "assets/".spec_bytes()
}

/// The extension by which a path names a shader container.
pub open spec fn container_extension() -> Seq<u8> {
    ".material.bin".spec_bytes()
}

/// `path` names a shader container.
pub open spec fn is_shader_container(path: Seq<u8>) -> bool {
    container_extension().is_suffix_of(path)
}

/// The redirect rules, in the order in which they are tried: the prefix of
/// the logical path, and the prefix that takes its place in the pack.
pub open spec fn redirect_rules() -> Seq<(Seq<u8>, Seq<u8>)> {
    seq![
        ("gui/dist/hbui/".spec_bytes(), "hbui/".spec_bytes()),
        ("skin_packs/persona/".spec_bytes(), "persona/".spec_bytes()),
        ("renderer/".spec_bytes(), "renderer/".spec_bytes()),
        ("resource_packs/vanilla/cameras/".spec_bytes(), "vanilla_cameras/".spec_bytes()),
    ]
}

/// The pack path that the first matching rule of `rules` gives to `file`.
pub open spec fn rule_target(rules: Seq<(Seq<u8>, Seq<u8>)>, file: Seq<u8>) -> Option<Seq<u8>>
    decreases rules.len(),
{
    if rules.len() == 0 {
        None
    } else if rules.first().0.is_prefix_of(file) {
        Some(rules.first().1 + file.skip(rules.first().0.len() as int))
    } else {
        rule_target(rules.drop_first(), file)
    }
}

/// The pack path under which the logical path `path` is looked for, if any
/// redirect rule matches it.
pub open spec fn pack_path(path: Seq<u8>) -> Option<Seq<u8>> {
    rule_target(redirect_rules(), without_prefix(path, assets_prefix()))
}

/// What has to happen for a path to be opened.
#[derive(Debug)]
pub enum Resolution<'a> {
    /// The buffer that was closed last has this path: it is served again,
    /// rewound, and nothing is loaded.
    Cached(Buffer<'a>),
    /// The pack loader has to be asked for `pack_path`. Where `transform` is
    /// set the bytes it returns are a shader container and go through the
    /// compatibility fixes.
    Load { pack_path: Vec<u8>, transform: bool },
    /// No redirect rule matches: the path is left to the real asset API.
    NoMatch,
}

/// What a [`Resolution`] holds.
pub enum ResolutionView {
    Cached(BufferView),
    Load { pack_path: Seq<u8>, transform: bool },
    NoMatch,
}

impl<'a> View for Resolution<'a> {
    type V = ResolutionView;

    open spec fn view(&self) -> ResolutionView {
        match self {
            Resolution::Cached(buffer) => ResolutionView::Cached(buffer@),
            Resolution::Load { pack_path, transform } => ResolutionView::Load {
                pack_path: pack_path@,
                transform: *transform,
            },
            Resolution::NoMatch => ResolutionView::NoMatch,
        }
    }
}

/// The cache slot is in order: it holds no shader container.
pub open spec fn slot_wf(slot: Option<BufferView>) -> bool {
    match slot {
        Some(buffer) => !is_shader_container(buffer.name),
        None => true,
    }
}

/// The slot holds the buffer of `path`, and `path` may be served from it.
pub open spec fn slot_serves(slot: Option<BufferView>, path: Seq<u8>) -> bool {
    !is_shader_container(path) && slot is Some && slot->0.name == path
}

/// What opening `path` leads to while the cache slot holds `slot`.
pub open spec fn resolution(slot: Option<BufferView>, path: Seq<u8>) -> ResolutionView {
    if slot_serves(slot, path) {
        ResolutionView::Cached(slot->0.rewound())
    } else {
        match pack_path(path) {
            Some(pack_path) => ResolutionView::Load {
                pack_path,
                transform: is_shader_container(path),
            },
            None => ResolutionView::NoMatch,
        }
    }
}

/// The cache slot after `path` was opened: emptied by a shader container and
/// by the path whose buffer it held, untouched by any other path.
pub open spec fn slot_after_open(slot: Option<BufferView>, path: Seq<u8>) -> Option<BufferView> {
    if is_shader_container(path) || slot_serves(slot, path) {
        None
    } else {
        slot
    }
}

/// The cache slot after `buffer` was closed: it holds `buffer`, unless that
/// is a shader container; what it held before is gone either way.
pub open spec fn slot_after_close(buffer: BufferView) -> Option<BufferView> {
    if is_shader_container(buffer.name) {
        None
    } else {
        Some(buffer)
    }
}

/// The buffer that is made of what the loader returned for `path`: none where
/// it returned nothing, else one named `path` and positioned at the start. It
/// owns the fixed-up bytes where there are any, and holds the loaded bytes as
/// they were handed over otherwise.
pub open spec fn wrapped(
    path: Seq<u8>,
    loaded: Seq<u8>,
    loaded_owned: bool,
    updated: Option<Seq<u8>>,
) -> Option<BufferView> {
    if loaded.len() == 0 {
        None
    } else {
        Some(
            match updated {
                Some(bytes) => BufferView { name: path, content: bytes, owned: true, cursor: 0 },
                None => BufferView {
                    name: path,
                    content: loaded,
                    owned: loaded_owned,
                    cursor: 0,
                },
            },
        )
    }
}

/// The redirect rules, in the order in which they are tried.
pub fn folder_list() -> (rules: Vec<(&'static [u8], &'static [u8])>)
    ensures
        rules@.map_values(|rule: (&'static [u8], &'static [u8])| (rule.0@, rule.1@))
            == redirect_rules(),
{
    let mut rules: Vec<(&'static [u8], &'static [u8])> = Vec::new();
    rules.push(("gui/dist/hbui/".as_bytes(), "hbui/".as_bytes()));
    rules.push(("skin_packs/persona/".as_bytes(), "persona/".as_bytes()));
    rules.push(("renderer/".as_bytes(), "renderer/".as_bytes()));
    rules.push(("resource_packs/vanilla/cameras/".as_bytes(), "vanilla_cameras/".as_bytes()));
    assert(rules@.map_values(|rule: (&'static [u8], &'static [u8])| (rule.0@, rule.1@))
        =~= redirect_rules());
    rules
}

/// Whether `path` names a shader container.
pub fn names_shader_container(path: &[u8]) -> (yes: bool)
    ensures
        yes == is_shader_container(path@),
{
    ends_with(path, ".material.bin".as_bytes())
}

/// The pack path under which `path` is looked for, if a redirect rule
/// matches it: the first rule whose prefix `path` starts with, once a leading
/// `assets/` is taken off, puts its own prefix in that prefix's place.
pub fn redirect(path: &[u8]) -> (target: Option<Vec<u8>>)
    ensures
        match target {
            Some(bytes) => pack_path(path@) == Some(bytes@),
            None => pack_path(path@) is None,
        },
{
    let stripped = strip_prefix(path, "assets/".as_bytes());
    let replacement_list = folder_list();
    let ghost rules = redirect_rules();
    let mut i: usize = 0;
    assert(rules.skip(0) == rules);
    while i < replacement_list.len()
        invariant
            i <= replacement_list@.len(),
            rules == redirect_rules(),
            replacement_list@.map_values(
                |rule: (&'static [u8], &'static [u8])| (rule.0@, rule.1@),
            ) == rules,
            stripped@ == without_prefix(path@, assets_prefix()),
            pack_path(path@) == rule_target(rules.skip(i as int), stripped@),
        decreases replacement_list@.len() - i,
    {
        let replacement = replacement_list[i];
        assert(rules[i as int] == (replacement.0@, replacement.1@));
        assert(rules.skip(i as int).first() == rules[i as int]);
        if starts_with(stripped, replacement.0) {
            let file = slice_subrange(stripped, replacement.0.len(), stripped.len());
            let mut joined: Vec<u8> = Vec::new();
            let pieces: [&[u8]; 2] = [replacement.1, file];
            opt_path_join(&mut joined, pieces.as_slice());
            proof {
                let both = pieces@;
                assert(both.drop_last().drop_last().len() == 0);
                assert(both.drop_last().last() == replacement.1);
                assert(both.last() == file);
                reveal_with_fuel(crate::bytes::joined, 3);
                assert(crate::bytes::joined(both) =~= replacement.1@ + file@);
            }
            return Some(joined);
        }
        assert(rules.skip(i as int).drop_first() == rules.skip(i + 1));
        i += 1;
    }
    None
}

/// The one-slot cache of the redirector: the buffer that was closed last.
#[derive(Debug)]
pub struct FileLoader<'a> {
    last_buffer: Option<Buffer<'a>>,
}

impl<'a> View for FileLoader<'a> {
    type V = Option<BufferView>;

    closed spec fn view(&self) -> Option<BufferView> {
        match self.last_buffer {
            Some(buffer) => Some(buffer@),
            None => None,
        }
    }
}

impl<'a> FileLoader<'a> {
    #[verifier::type_invariant]
    closed spec fn holds_no_container(&self) -> bool {
        match self.last_buffer {
            Some(buffer) => !is_shader_container(buffer@.name),
            None => true,
        }
    }

    /// A redirector with an empty cache slot.
    pub fn new() -> (loader: Self)
        ensures
            loader@ is None,
    {
        FileLoader { last_buffer: None }
    }

    /// Whether the cache slot holds the buffer of `path`.
    pub fn holds(&self, path: &[u8]) -> (held: bool)
        ensures
            held == (self@ is Some && self@->0.name == path@),
            slot_wf(self@),
    {
        proof {
            use_type_invariant(self);
        }
        match &self.last_buffer {
            Some(buffer) => bytes_eq(buffer.name(), path),
            None => false,
        }
    }

    /// Decides how `path` is opened. A shader container empties the cache
    /// slot and is always loaded afresh; any other path is served from the
    /// slot where the slot holds its buffer, which is rewound and taken out.
    /// Otherwise the redirect rules decide: the first that matches gives the
    /// pack path to load, and a path that none matches is not redirected.
    pub fn get_file(&mut self, path: &[u8]) -> (found: Resolution<'a>)
        ensures
            slot_wf(old(self)@),
            found@ == resolution(old(self)@, path@),
            final(self)@ == slot_after_open(old(self)@, path@),
            slot_wf(final(self)@),
    {
        let held = self.holds(path);
        let transform = names_shader_container(path);
        if transform {
            self.last_buffer = None;
        } else if held {
            let mut taken: Option<Buffer<'a>> = None;
            core::mem::swap(&mut self.last_buffer, &mut taken);
            match taken {
                Some(cache) => {
                    let mut cache = cache;
                    cache.rewind();
                    return Resolution::Cached(cache);
                },
                None => {},
            }
        }
        match redirect(path) {
            Some(pack_path) => Resolution::Load { pack_path, transform },
            None => Resolution::NoMatch,
        }
    }

    /// Takes back a buffer whose handle was closed. It goes into the cache
    /// slot, in place of what was there; a shader container is dropped
    /// instead and leaves the slot empty.
    pub fn retire(&mut self, buffer: Buffer<'a>)
        ensures
            final(self)@ == slot_after_close(buffer@),
            slot_wf(final(self)@),
    {
        if names_shader_container(buffer.name()) {
            self.last_buffer = None;
        } else {
            self.last_buffer = Some(buffer);
        }
    }
}

/// Makes the buffer for `path` out of what the pack loader returned. Nothing
/// loaded means that the path is not redirected after all. `updated` holds
/// the bytes that the compatibility fixes produced, where they produced any:
/// these are served in place of the loaded ones. The buffer is named after
/// `path`, the path that was asked for, not after the pack path.
pub fn wrap<'a>(path: &[u8], loaded: ByteSource<'a>, updated: Option<Vec<u8>>) -> (made: Option<
    Buffer<'a>,
>)
    ensures
        match made {
            Some(buffer) => wrapped(
                path@,
                loaded@,
                loaded is Owned,
                match updated {
                    Some(bytes) => Some(bytes@),
                    None => None,
                },
            ) == Some(buffer@),
            None => loaded@.len() == 0,
        },
{
    if loaded.is_empty() {
        return None;
    }
    let object = match updated {
        Some(bytes) => ByteSource::Owned(bytes),
        None => loaded,
    };
    Some(Buffer::new(slice_to_vec(path), object))
}

/// The first rule that matches decides: `rule_target` returns what the
/// first rule whose prefix `file` starts with makes of it, and nothing only
/// where `file` starts with no rule's prefix.
pub proof fn lemma_first_rule_wins(rules: Seq<(Seq<u8>, Seq<u8>)>, file: Seq<u8>)
    ensures
        match rule_target(rules, file) {
            Some(target) => exists|at: int|
                {
                    &&& 0 <= at < rules.len()
                    &&& (#[trigger] rules[at]).0.is_prefix_of(file)
                    &&& target == rules[at].1 + file.skip(rules[at].0.len() as int)
                    &&& forall|before: int|
                        0 <= before < at ==> !(#[trigger] rules[before]).0.is_prefix_of(file)
                },
            None => forall|at: int| 0 <= at < rules.len() ==> !(#[trigger] rules[at]).0.is_prefix_of(file),
        },
    decreases rules.len(),
{
    if rules.len() == 0 {
    } else if rules.first().0.is_prefix_of(file) {
        assert(rules[0] == rules.first());
    } else {
        let rest = rules.drop_first();
        lemma_first_rule_wins(rest, file);
        match rule_target(rest, file) {
            Some(target) => {
                let at = choose|at: int|
                    {
                        &&& 0 <= at < rest.len()
                        &&& (#[trigger] rest[at]).0.is_prefix_of(file)
                        &&& target == rest[at].1 + file.skip(rest[at].0.len() as int)
                        &&& forall|before: int|
                            0 <= before < at ==> !(#[trigger] rest[before]).0.is_prefix_of(file)
                    };
                assert(rules[at + 1] == rest[at]);
                assert forall|before: int| 0 <= before < at + 1 implies !(
                #[trigger] rules[before]).0.is_prefix_of(file) by {
                    if before > 0 {
                        assert(rules[before] == rest[before - 1]);
                    }
                }
            },
            None => {
                assert forall|at: int| 0 <= at < rules.len() implies !(
                #[trigger] rules[at]).0.is_prefix_of(file) by {
                    if at > 0 {
                        assert(rules[at] == rest[at - 1]);
                    }
                }
            },
        }
    }
}

/// A path that no redirect rule matches is not redirected: opening it asks
/// for no load and serves no buffer, unless the cache slot holds a buffer
/// of that very name.
pub proof fn lemma_unmatched_path_is_not_redirected(slot: Option<BufferView>, path: Seq<u8>)
    requires
        forall|at: int|
            0 <= at < redirect_rules().len() ==> !(#[trigger] redirect_rules()[at]).0.is_prefix_of(
                without_prefix(path, assets_prefix()),
            ),
        !(slot is Some && slot->0.name == path),
    ensures
        pack_path(path) is None,
        resolution(slot, path) == ResolutionView::NoMatch,
{
    lemma_first_rule_wins(redirect_rules(), without_prefix(path, assets_prefix()));
}

/// A shader container is resolved afresh every time: whatever the cache slot
/// holds, opening its path serves nothing from the slot, asks for the same
/// load, and leaves the slot empty. With it the buffer that is made of the
/// loaded bytes depends on the path and on those bytes alone.
pub proof fn lemma_container_is_resolved_afresh(
    slot: Option<BufferView>,
    other_slot: Option<BufferView>,
    path: Seq<u8>,
)
    requires
        is_shader_container(path),
    ensures
        !(resolution(slot, path) is Cached),
        resolution(slot, path) == resolution(other_slot, path),
        slot_after_open(slot, path) is None,
        resolution(slot_after_open(slot, path), path) == resolution(slot, path),
{
}

/// A path that is closed and opened again is served from the cache slot: the
/// second open asks for no load, and hands out the closed buffer, rewound.
pub proof fn lemma_reopen_is_served_from_cache(closed: BufferView)
    requires
        !is_shader_container(closed.name),
    ensures
        resolution(slot_after_close(closed), closed.name) == ResolutionView::Cached(
            closed.rewound(),
        ),
        slot_after_open(slot_after_close(closed), closed.name) is None,
{
}

/// The cache slot has room for one buffer. Closing another path's buffer
/// puts the first one out, and so does opening a shader container: the first
/// path is then no longer served from the slot.
pub proof fn lemma_other_path_evicts(first: BufferView, other: BufferView, container: Seq<u8>)
    requires
        first.name != other.name,
        is_shader_container(container),
    ensures
        !(resolution(slot_after_close(other), first.name) is Cached),
        !(resolution(
            slot_after_open(slot_after_close(first), container),
            first.name,
        ) is Cached),
{
}

/// The cache slot stays in order through every open and close, and what is
/// served from it has the path that was asked for and stands at the start.
pub proof fn lemma_slot_stays_in_order(slot: Option<BufferView>, path: Seq<u8>, closed: BufferView)
    requires
        slot_wf(slot),
    ensures
        slot_wf(slot_after_open(slot, path)),
        slot_wf(slot_after_close(closed)),
        resolution(slot, path) matches ResolutionView::Cached(buffer) ==> buffer.cursor == 0
            && buffer.name == path && buffer.content == slot->0.content,
{
}

/// The byte `/`, which parts the directories of a path.
pub open spec fn slash() -> u8 {
    0x2f
}

/// Where `head` ends with `/` and `extension` holds none, `head + rest`
/// ends with `extension` exactly where `rest` does.
pub proof fn lemma_extension_past_directory(head: Seq<u8>, rest: Seq<u8>, extension: Seq<u8>)
    requires
        head.len() > 0,
        head.last() == slash(),
        forall|at: int| 0 <= at < extension.len() ==> extension[at] != slash(),
    ensures
        extension.is_suffix_of(head + rest) == extension.is_suffix_of(rest),
{
    let whole = head + rest;
    if extension.len() <= rest.len() {
        assert(whole.subrange(whole.len() - extension.len(), whole.len() as int) =~= rest.subrange(
            rest.len() - extension.len(),
            rest.len() as int,
        ));
    } else if extension.is_suffix_of(whole) {
        let start = whole.len() - extension.len();
        let window = whole.subrange(start, whole.len() as int);
        let at = head.len() - 1 - start;
        assert(window[at] == whole[head.len() - 1]);
        assert(extension[at] == slash());
    }
}

/// What the texts of this file hold, as far as the proofs below need it: the
/// directory prefixes end with `/`, and the container extension holds none.
proof fn lemma_texts()
    ensures
        assets_prefix().len() > 0 && assets_prefix().last() == slash(),
        redirect_rules().len() == 4,
        forall|at: int|
            0 <= at < 4 ==> {
                &&& (#[trigger] redirect_rules()[at]).0.len() > 0
                &&& redirect_rules()[at].0.last() == slash()
                &&& redirect_rules()[at].1.len() > 0
                &&& redirect_rules()[at].1.last() == slash()
            },
        forall|at: int|
            0 <= at < container_extension().len() ==> container_extension()[at] != slash(),
{
    broadcast use vstd::string::is_ascii_spec_bytes;

    reveal_strlit("assets/");
    reveal_strlit(".material.bin");
    reveal_strlit("gui/dist/hbui/");
    reveal_strlit("hbui/");
    reveal_strlit("skin_packs/persona/");
    reveal_strlit("persona/");
    reveal_strlit("renderer/");
    reveal_strlit("resource_packs/vanilla/cameras/");
    reveal_strlit("vanilla_cameras/");
    assert("assets/".is_ascii());
    assert(".material.bin".is_ascii());
    assert("gui/dist/hbui/".is_ascii());
    assert("hbui/".is_ascii());
    assert("skin_packs/persona/".is_ascii());
    assert("persona/".is_ascii());
    assert("renderer/".is_ascii());
    assert("resource_packs/vanilla/cameras/".is_ascii());
    assert("vanilla_cameras/".is_ascii());
}

/// A path names a shader container whether or not its leading `assets/` and
/// the prefix that a redirect rule replaces are looked at: the logical path,
/// the path without `assets/`, and the pack path it is redirected to end with
/// the container extension together or not at all.
pub proof fn lemma_container_by_any_path(path: Seq<u8>)
    ensures
        is_shader_container(without_prefix(path, assets_prefix())) == is_shader_container(path),
        pack_path(path) matches Some(target) ==> is_shader_container(target)
            == is_shader_container(path),
{
    lemma_texts();
    let extension = container_extension();
    let file = without_prefix(path, assets_prefix());
    if assets_prefix().is_prefix_of(path) {
        assert(path =~= assets_prefix() + file);
        lemma_extension_past_directory(assets_prefix(), file, extension);
    }
    lemma_first_rule_wins(redirect_rules(), file);
    if pack_path(path) is Some {
        let rules = redirect_rules();
        let target = pack_path(path)->0;
        let at = choose|at: int|
            {
                &&& 0 <= at < rules.len()
                &&& (#[trigger] rules[at]).0.is_prefix_of(file)
                &&& target == rules[at].1 + file.skip(rules[at].0.len() as int)
                &&& forall|before: int|
                    0 <= before < at ==> !(#[trigger] rules[before]).0.is_prefix_of(file)
            };
        let rest = file.skip(rules[at].0.len() as int);
        assert(file =~= rules[at].0 + rest);
        lemma_extension_past_directory(rules[at].0, rest, extension);
        lemma_extension_past_directory(rules[at].1, rest, extension);
    }
}

} // verus!
