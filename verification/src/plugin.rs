//! Plugin management: the decisions of the plugin manager as verified
//! functions over plain values.
//!
//! A plugin is a native shared library. The host reads its metadata, rejects
//! it on an ABI version mismatch before any instance is built, derives its
//! logical name from its file name, copies the file to a uniquely named
//! temporary before loading (so the original is never kept locked), and on
//! hot reload splices the fresh widget into the live list at the position
//! the old one held. Everything that touches the operating system — loading
//! symbols, the file watcher, the directory scan — lives with the host
//! around this library and hands in plain values.

use vstd::prelude::*;

use crate::formatting::u64_to_string;
use crate::text::str_eq;
use crate::widget::{Widget, WidgetContainer};

verus! {

/// The plugin ABI version this host expects.
pub const PLUGIN_API_VERSION: u32 = 1;

/// Self-description a plugin library reports, read once at load time,
/// before any widget instance is constructed.
pub struct PluginMetadata {
    /// The ABI version the plugin was built against.
    pub api_version: u32,
    /// The plugin's name, as the byte span the library exposes.
    pub name: Vec<u8>,
}

/// Why loading, reloading or naming a plugin failed.
#[derive(Debug, Clone, PartialEq, Eq)]
pub enum PluginError {
    /// Reading or copying the plugin file failed.
    Io(String),
    /// The dynamic loader could not load the library or resolve a symbol.
    Loading(String),
    /// The plugin's name bytes are not valid UTF-8.
    Utf8,
    /// The file watcher could not be set up or reported a failure.
    Watcher(String),
    /// The plugin was built against another ABI version; it is rejected
    /// before any instance is created.
    VersionMismatch { expected: u32, got: u32 },
    /// No plugin of the given name is loaded.
    PluginNotFound(String),
}

/// Accept a plugin's metadata only when it reports the expected ABI
/// version. Rejection happens before `create` is ever called, so a
/// mismatching plugin never contributes a widget.
pub fn check_api_version(meta: &PluginMetadata, expected: u32) -> (r: Result<(), PluginError>)
    ensures
        r is Ok <==> meta.api_version == expected,
        r is Err ==> r == Result::<(), PluginError>::Err(
            PluginError::VersionMismatch { expected, got: meta.api_version },
        ),
{
    if meta.api_version != expected {
        Err(PluginError::VersionMismatch { expected, got: meta.api_version })
    } else {
        Ok(())
    }
}

/// Relies on `String::from_utf8` of std: succeeds exactly on valid UTF-8
/// input; ASCII bytes are valid UTF-8 and decode one to one to the
/// characters with the same code points.
#[verifier::external_body]
fn utf8_to_string(bytes: Vec<u8>) -> (r: Option<String>)
    ensures
        (forall|i: int| 0 <= i < bytes@.len() ==> bytes@[i] < 128) ==> (r is Some && r->0@
            == bytes@.map_values(|b: u8| b as char)),
{
    String::from_utf8(bytes).ok()
}

/// Decode a plugin's name bytes; a name that is not valid UTF-8 is a
/// malformed plugin. For an ASCII name the result is exactly those
/// characters.
pub fn plugin_name(name: Vec<u8>) -> (r: Result<String, PluginError>)
    ensures
        (forall|i: int| 0 <= i < name@.len() ==> name@[i] < 128) ==> (r is Ok && r->Ok_0@
            == name@.map_values(|b: u8| b as char)),
        r is Err ==> r == Result::<String, PluginError>::Err(PluginError::Utf8),
{
    match utf8_to_string(name) {
        Some(s) => Ok(s),
        None => Err(PluginError::Utf8),
    }
}

/// The platform the host runs on, picked once at startup; it decides the
/// native library file extension.
#[derive(Debug, Clone, Copy, PartialEq, Eq, Structural)]
pub enum Platform {
    Windows,
    MacOs,
    Linux,
}

/// The native library extension of a platform.
pub open spec fn spec_dll_extension(p: Platform) -> Seq<char> {
    match p {
        Platform::Windows => "dll"@,
        Platform::MacOs => "dylib"@,
        Platform::Linux => "so"@,
    }
}

/// The native library file extension used on `platform`.
pub fn dll_extension(platform: Platform) -> (r: &'static str)
    ensures
        r@ == spec_dll_extension(platform),
{
    match platform {
        Platform::Windows => "dll",
        Platform::MacOs => "dylib",
        Platform::Linux => "so",
    }
}

/// Index of the last `.` in a file name, or -1 when there is none.
pub open spec fn last_dot(s: Seq<char>) -> int
    decreases s.len(),
{
    if s.len() == 0 {
        -1
    } else if s[s.len() - 1] == '.' {
        s.len() - 1
    } else {
        last_dot(s.drop_last())
    }
}

/// The stem of a file name: everything before the last dot, except that a
/// name without a dot, or with its only dot in front (a hidden file), is
/// its own stem.
pub open spec fn stem_of(s: Seq<char>) -> Seq<char> {
    if last_dot(s) <= 0 {
        s
    } else {
        s.take(last_dot(s))
    }
}

/// The extension of a file name: what follows the last dot, absent for a
/// name whose only dot, if any, is in front.
pub open spec fn extension_of(s: Seq<char>) -> Option<Seq<char>> {
    if last_dot(s) <= 0 {
        None
    } else {
        Some(s.skip(last_dot(s) + 1))
    }
}

/// A dot with nothing but non-dots after it is the last dot.
pub proof fn lemma_last_dot_at(s: Seq<char>, j: int)
    requires
        0 <= j < s.len(),
        s[j] == '.',
        forall|k: int| j < k < s.len() ==> s[k] != '.',
    ensures
        last_dot(s) == j,
    decreases s.len(),
{
    if j < s.len() - 1 {
        lemma_last_dot_at(s.drop_last(), j);
    }
}

/// A name without any dot has no last dot.
pub proof fn lemma_last_dot_none(s: Seq<char>)
    requires
        forall|k: int| 0 <= k < s.len() ==> s[k] != '.',
    ensures
        last_dot(s) == -1,
    decreases s.len(),
{
    if s.len() > 0 {
        lemma_last_dot_none(s.drop_last());
    }
}

/// Scan a string for its last dot: the position, or `None` when no dot
/// occurs.
fn find_last_dot(s: &str) -> (r: Option<usize>)
    ensures
        match r {
            Some(i) => i < s@.len() && i as int == last_dot(s@),
            None => last_dot(s@) == -1,
        },
{
    let n = s.unicode_len();
    let mut dot: usize = 0;
    let mut has_dot = false;
    let mut i: usize = 0;
    while i < n
        invariant
            n == s@.len(),
            i <= n,
            has_dot ==> dot < i && s@[dot as int] == '.' && (forall|k: int|
                dot < k < i ==> s@[k] != '.'),
            !has_dot ==> forall|k: int| 0 <= k < i ==> s@[k] != '.',
        decreases n - i,
    {
        if s.get_char(i) == '.' {
            dot = i;
            has_dot = true;
        }
        i = i + 1;
    }
    if has_dot {
        proof {
            lemma_last_dot_at(s@, dot as int);
        }
        Some(dot)
    } else {
        proof {
            lemma_last_dot_none(s@);
        }
        None
    }
}

/// The logical plugin name a plugin file carries: the file name's stem.
pub fn extract_plugin_name(file_name: &str) -> (r: String)
    ensures
        r@ == stem_of(file_name@),
{
    match find_last_dot(file_name) {
        Some(dot) => {
            if dot > 0 {
                let head = file_name.substring_char(0, dot);
                proof {
                    assert(head@ =~= stem_of(file_name@));
                }
                head.to_owned()
            } else {
                file_name.to_owned()
            }
        },
        None => file_name.to_owned(),
    }
}

/// Whether a directory entry is a plugin file: its extension is the
/// platform's native library extension.
pub fn is_plugin_file(file_name: &str, platform: Platform) -> (r: bool)
    ensures
        r == (extension_of(file_name@) == Some(spec_dll_extension(platform))),
{
    match find_last_dot(file_name) {
        Some(dot) => {
            if dot > 0 {
                let n = file_name.unicode_len();
                let ext = file_name.substring_char(dot + 1, n);
                proof {
                    assert(ext@ =~= file_name@.skip(last_dot(file_name@) + 1));
                }
                str_eq(ext, dll_extension(platform))
            } else {
                false
            }
        },
        None => false,
    }
}

/// A file name with every trailing `.<ext>` stripped, as the temporary copy
/// naming uses it.
pub open spec fn strip_suffix_all(s: Seq<char>, suffix: Seq<char>) -> Seq<char>
    decreases s.len(),
{
    if suffix.len() > 0 && s.len() >= suffix.len() && s.skip(s.len() - suffix.len()) == suffix {
        strip_suffix_all(s.take(s.len() - suffix.len()), suffix)
    } else {
        s
    }
}

/// The name of the private temporary copy a plugin file is loaded from: the
/// file name with its library extension stripped, a fresh random token, and
/// the extension again — so concurrent reloads never collide on one path.
pub open spec fn spec_temp_file_name(name: Seq<char>, token: nat, ext: Seq<char>) -> Seq<char> {
    strip_suffix_all(name, seq!['.'] + ext) + seq!['_'] + crate::formatting::spec_decimal(token)
        + seq!['.'] + ext
}

/// Strip every trailing `.<ext>` from the first `end` characters of `name`,
/// returning where the stripped prefix ends.
fn stripped_end(name: &str, ext: &str, end: usize) -> (r: usize)
    requires
        end <= name@.len(),
        ext@.len() >= 1,
    ensures
        r <= end,
        name@.take(r as int) == strip_suffix_all(name@.take(end as int), seq!['.'] + ext@),
    decreases end,
{
    let extlen = ext.unicode_len();
    let ghost suffix = seq!['.'] + ext@;
    let ghost cur = name@.take(end as int);
    if end > extlen {
        let boundary = end - extlen - 1;
        if name.get_char(boundary) == '.' {
            if str_eq(name.substring_char(boundary + 1, end), ext) {
                proof {
                    assert(cur.skip(cur.len() - suffix.len()) =~= suffix);
                    assert(cur.take(cur.len() - suffix.len()) =~= name@.take(boundary as int));
                }
                let r = stripped_end(name, ext, boundary);
                return r;
            } else {
                proof {
                    let tail = name@.subrange(boundary as int + 1, end as int);
                    if cur.len() >= suffix.len() && cur.skip(cur.len() - suffix.len()) == suffix {
                        assert forall|j: int| 0 <= j < tail.len() implies tail[j] == ext@[j] by {
                            assert(cur.skip(cur.len() - suffix.len())[j + 1] == suffix[j + 1]);
                            assert(cur.skip(cur.len() - suffix.len())[j + 1] == cur[boundary as int
                                + 1 + j]);
                            assert(cur[boundary as int + 1 + j] == name@[boundary as int + 1 + j]);
                            assert(suffix[j + 1] == ext@[j]);
                        }
                        assert(tail =~= ext@);
                        assert(false);
                    }
                }
            }
        } else {
            proof {
                if cur.len() >= suffix.len() && cur.skip(cur.len() - suffix.len()) == suffix {
                    assert(cur.skip(cur.len() - suffix.len())[0] == suffix[0]);
                    assert(false);
                }
            }
        }
    } else {
        proof {
            if cur.len() >= suffix.len() && cur.skip(cur.len() - suffix.len()) == suffix {
                assert(false);
            }
        }
    }
    end
}

/// Build the temporary copy's file name from the plugin file's name, a
/// caller-supplied random token, and the platform's library extension.
pub fn temp_file_name(file_name: &str, token: u32, platform: Platform) -> (r: String)
    ensures
        r@ == spec_temp_file_name(file_name@, token as nat, spec_dll_extension(platform)),
{
    let ext = dll_extension(platform);
    proof {
        reveal_strlit("dll");
        reveal_strlit("dylib");
        reveal_strlit("so");
        assert(spec_dll_extension(platform).len() >= 1);
    }
    let n = file_name.unicode_len();
    proof {
        assert(file_name@.take(n as int) =~= file_name@);
    }
    let end = stripped_end(file_name, ext, n);
    let mut out = file_name.substring_char(0, end).to_owned();
    out.append("_");
    let num = u64_to_string(token as u64);
    out.append(num.as_str());
    out.append(".");
    out.append(ext);
    proof {
        reveal_strlit("_");
        reveal_strlit(".");
        assert(out@ =~= spec_temp_file_name(
            file_name@,
            token as nat,
            spec_dll_extension(platform),
        ));
    }
    out
}

/// The plugin manager's bookkeeping: which plugin names are loaded. The
/// operating-system side — library handles, the watcher, the temp
/// directory — lives with the host; this table decides reload behaviour.
pub struct PluginManager {
    plugins: Vec<String>,
}

impl PluginManager {
    /// The names of the loaded plugins, in load order.
    pub closed spec fn plugin_names(&self) -> Seq<Seq<char>> {
        self.plugins@.map_values(|s: String| s@)
    }

    /// Well-formed table: no plugin name twice.
    pub closed spec fn wf(&self) -> bool {
        forall|j: int, k: int|
            0 <= j < k < self.plugins@.len() ==> self.plugins@[j]@ != self.plugins@[k]@
    }

    /// An empty table: nothing loaded yet.
    pub fn new() -> (r: Self)
        ensures
            r.wf(),
            r.plugin_names() == Seq::<Seq<char>>::empty(),
    {
        let r = PluginManager { plugins: Vec::new() };
        proof {
            assert(r.plugin_names() =~= Seq::<Seq<char>>::empty());
        }
        r
    }

    /// Whether a plugin of this name is loaded.
    pub fn is_loaded(&self, name: &str) -> (r: bool)
        ensures
            r == exists|j: int|
                0 <= j < self.plugin_names().len() && (#[trigger] self.plugin_names()[j]) == name@,
    {
        let n = self.plugins.len();
        let mut i: usize = 0;
        while i < n
            invariant
                n == self.plugins@.len(),
                i <= n,
                forall|j: int| 0 <= j < i ==> (#[trigger] self.plugins@[j]@) != name@,
            decreases n - i,
        {
            if str_eq(self.plugins[i].as_str(), name) {
                proof {
                    assert(self.plugin_names()[i as int] == name@);
                }
                return true;
            }
            i = i + 1;
        }
        false
    }

    /// Record a plugin as loaded; recording a name that is already present
    /// changes nothing.
    pub fn register_plugin(&mut self, name: String)
        requires
            old(self).wf(),
        ensures
            final(self).wf(),
            (forall|j: int|
                0 <= j < old(self).plugin_names().len() ==> (#[trigger] old(
                    self,
                ).plugin_names()[j]) != name@) ==> final(self).plugin_names() == old(
                self,
            ).plugin_names().push(name@),
            (exists|j: int|
                0 <= j < old(self).plugin_names().len() && (#[trigger] old(
                    self,
                ).plugin_names()[j]) == name@) ==> final(self).plugin_names() == old(
                self,
            ).plugin_names(),
    {
        if self.is_loaded(name.as_str()) {
            return ;
        }
        self.plugins.push(name);
        proof {
            assert forall|j: int|
                0 <= j < old(self).plugins@.len() implies (#[trigger] old(self).plugins@[j]@)
                != name@ by {
                assert(old(self).plugin_names()[j] == old(self).plugins@[j]@);
            }
            assert(final(self).plugin_names() =~= old(self).plugin_names().push(name@));
        }
    }

    /// Forget a plugin: removes its table entry, telling the host the
    /// library may be unloaded. Reports whether the name was present.
    pub fn remove_plugin(&mut self, name: &str) -> (found: bool)
        requires
            old(self).wf(),
        ensures
            final(self).wf(),
            !found ==> final(self).plugin_names() == old(self).plugin_names(),
            found == exists|j: int|
                0 <= j < old(self).plugin_names().len() && (#[trigger] old(
                    self,
                ).plugin_names()[j]) == name@,
            forall|k: int|
                0 <= k < old(self).plugin_names().len() && (#[trigger] old(
                    self,
                ).plugin_names()[k]) == name@ ==> final(self).plugin_names() == old(
                self,
            ).plugin_names().remove(k),
    {
        let n = self.plugins.len();
        let mut i: usize = 0;
        while i < n
            invariant
                old(self).wf(),
                n == self.plugins@.len(),
                i <= n,
                *self == *old(self),
                forall|j: int| 0 <= j < i ==> (#[trigger] self.plugins@[j]@) != name@,
            decreases n - i,
        {
            if str_eq(self.plugins[i].as_str(), name) {
                self.plugins.remove(i);
                proof {
                    assert((old(self).plugin_names()[i as int]) == name@);
                    assert(final(self).plugin_names() =~= old(self).plugin_names().remove(
                        i as int,
                    ));
                    assert forall|k: int|
                        0 <= k < old(self).plugin_names().len() && (#[trigger] old(
                            self,
                        ).plugin_names()[k]) == name@ implies final(self).plugin_names() == old(
                        self,
                    ).plugin_names().remove(k) by {
                        assert(old(self).plugins@[k]@ == old(self).plugins@[i as int]@);
                        assert(k == i as int);
                    }
                }
                return true;
            }
            i = i + 1;
        }
        false
    }
}

/// Position of the live widget a plugin name belongs to: the first
/// container carrying that name, or `None` when this is a first-time load.
pub fn find_widget_index<W: Widget>(widgets: &Vec<WidgetContainer<W>>, name: &str) -> (r: Option<
    usize,
>)
    ensures
        match r {
            Some(i) => 0 <= i < widgets@.len() && widgets@[i as int].spec_name() == name@ && (
            forall|j: int| 0 <= j < i ==> (#[trigger] widgets@[j].spec_name()) != name@),
            None => forall|j: int|
                0 <= j < widgets@.len() ==> (#[trigger] widgets@[j].spec_name()) != name@,
        },
{
    let n = widgets.len();
    let mut i: usize = 0;
    while i < n
        invariant
            n == widgets@.len(),
            i <= n,
            forall|j: int| 0 <= j < i ==> (#[trigger] widgets@[j].spec_name()) != name@,
        decreases n - i,
    {
        if str_eq(widgets[i].name(), name) {
            return Some(i);
        }
        i = i + 1;
    }
    None
}

/// Replace the widget at one position of the live list, in place: the list
/// keeps its length, every other position is untouched, and the displaced
/// container comes back to the caller (for teardown).
pub fn replace_widget_at<W: Widget>(
    widgets: &mut Vec<WidgetContainer<W>>,
    idx: usize,
    fresh: WidgetContainer<W>,
) -> (displaced: WidgetContainer<W>)
    requires
        idx < old(widgets)@.len(),
    ensures
        final(widgets)@.len() == old(widgets)@.len(),
        final(widgets)@[idx as int] == fresh,
        forall|j: int|
            0 <= j < old(widgets)@.len() && j != idx ==> final(widgets)@[j] == old(widgets)@[j],
        displaced == old(widgets)@[idx as int],
{
    let displaced = widgets.remove(idx);
    widgets.insert(idx, fresh);
    displaced
}

/// Splice a freshly loaded widget into the live list: into the position its
/// predecessor held, or appended when no widget of that name was live. The
/// displaced container, if any, comes back for teardown.
pub fn install_widget<W: Widget>(
    widgets: &mut Vec<WidgetContainer<W>>,
    prior: Option<usize>,
    fresh: WidgetContainer<W>,
) -> (displaced: Option<WidgetContainer<W>>)
    requires
        prior is Some ==> prior->0 < old(widgets)@.len(),
    ensures
        prior is Some ==> {
            &&& final(widgets)@.len() == old(widgets)@.len()
            &&& final(widgets)@[prior->0 as int] == fresh
            &&& (forall|j: int|
                0 <= j < old(widgets)@.len() && j != prior->0 ==> final(widgets)@[j] == old(
                    widgets,
                )@[j])
            &&& displaced == Some(old(widgets)@[prior->0 as int])
        },
        prior is None ==> final(widgets)@ == old(widgets)@.push(fresh) && displaced is None,
{
    match prior {
        Some(idx) => {
            let displaced = replace_widget_at(widgets, idx, fresh);
            Some(displaced)
        },
        None => {
            widgets.push(fresh);
            None
        },
    }
}

} // verus!
