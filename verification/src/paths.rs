//! Path text of the queued sender: supported audio files, display names, `~` expansion
//! and the pieces of path completion. Paths are `/`-separated text; what std's `Path`
//! makes of a path (its file name, its parent, a join, equality by components) is
//! taken from std itself.

use vstd::prelude::*;
use crate::sap::{trim_end, trim_start};
use crate::sdp::{chars_of, opt_text};
use crate::text::{chars_less, has_prefix, string_from_chars};

verus! {

/// What `Path::file_name` gives for the path text `p` (as text).
pub uninterp spec fn file_name_of(p: Seq<char>) -> Option<Seq<char>>;

/// What `Path::parent` gives for the path text `p` (as text).
pub uninterp spec fn parent_of(p: Seq<char>) -> Option<Seq<char>>;

/// What `Path::join` gives for the path texts `base` and `rest` (as text).
pub uninterp spec fn joined_path(base: Seq<char>, rest: Seq<char>) -> Seq<char>;

/// Whether `Path` holds the path texts `a` and `b` equal (component by component).
pub uninterp spec fn same_path(a: Seq<char>, b: Seq<char>) -> bool;

/// The final component of a path (std's `Path::file_name`, converted to text).
#[verifier::external_body]
fn path_file_name(path: &str) -> (r: Option<String>)
    ensures
        opt_text(r) == file_name_of(path@),
{
    std::path::Path::new(path).file_name().map(|n| n.to_string_lossy().to_string())
}

/// The path without its final component (std's `Path::parent`, converted to text).
#[verifier::external_body]
fn path_parent(path: &str) -> (r: Option<String>)
    ensures
        opt_text(r) == parent_of(path@),
{
    std::path::Path::new(path).parent().map(|p| p.to_string_lossy().to_string())
}

/// `rest` joined onto `base` (std's `Path::join`, converted to text).
#[verifier::external_body]
fn path_join(base: &str, rest: &str) -> (r: String)
    ensures
        r@ == joined_path(base@, rest@),
{
    std::path::Path::new(base).join(rest).to_string_lossy().to_string()
}

/// Whether two paths are equal (std's `PartialEq` for `Path`, which compares components).
#[verifier::external_body]
fn paths_equal(a: &str, b: &str) -> (r: bool)
    ensures
        r == same_path(a@, b@),
{
    std::path::Path::new(a) == std::path::Path::new(b)
}

/// The path separator.
pub open spec fn is_sep(c: char) -> bool {
    c == '/'
}

/// The text ends with a separator.
pub open spec fn ends_with_sep(s: Seq<char>) -> bool {
    s.len() > 0 && is_sep(s.last())
}

/// The text without its trailing separators.
pub open spec fn trim_end_seps(s: Seq<char>) -> Seq<char>
    decreases s.len(),
{
    if ends_with_sep(s) {
        trim_end_seps(s.drop_last())
    } else {
        s
    }
}

/// Index of the last `c` in `s`, or -1.
pub open spec fn last_index(s: Seq<char>, c: char) -> int
    decreases s.len(),
{
    if s.len() == 0 {
        -1
    } else if s.last() == c {
        s.len() - 1
    } else {
        last_index(s.drop_last(), c)
    }
}

/// The extension of a file name, as `Path::extension` documents it: the part after the
/// last `.`, none when there is no `.` or the only one starts the name.
pub open spec fn extension_of(name: Seq<char>) -> Option<Seq<char>> {
    let i = last_index(name, '.');
    if i <= 0 {
        None
    } else {
        Some(name.skip(i + 1))
    }
}

proof fn lemma_last_index_past(s: Seq<char>, e: Seq<char>, c: char)
    requires
        !e.contains(c),
    ensures
        last_index(s + e, c) == last_index(s, c),
    decreases e.len(),
{
    if e.len() > 0 {
        assert((s + e).last() == e.last());
        assert((s + e).drop_last() =~= s + e.drop_last());
        assert(!e.drop_last().contains(c)) by {
            if e.drop_last().contains(c) {
                let i = choose|i: int| 0 <= i < e.drop_last().len() && e.drop_last()[i] == c;
                assert(e[i] == c);
            }
        }
        lemma_last_index_past(s, e.drop_last(), c);
    } else {
        assert(s + e =~= s);
    }
}

proof fn lemma_last_index_none(s: Seq<char>, c: char)
    requires
        !s.contains(c),
    ensures
        last_index(s, c) == -1,
{
    lemma_last_index_past(Seq::empty(), s, c);
    assert(Seq::<char>::empty() + s =~= s);
}

/// A file name's extension is what follows its last `.`: for a name made of a nonempty
/// stem, a `.` and a text `e` without `.`, the extension is `e`. A name without `.`, or
/// whose only `.` starts it, has none.
pub proof fn lemma_extension_after_last_dot(stem: Seq<char>, e: Seq<char>)
    requires
        stem.len() > 0,
        !e.contains('.'),
    ensures
        extension_of(stem + seq!['.'] + e) == Some(e),
        extension_of(seq!['.'] + e) is None,
        extension_of(e) is None,
{
    let with_dot = stem.push('.');
    assert(stem + seq!['.'] + e =~= with_dot + e);
    lemma_last_index_past(with_dot, e, '.');
    assert(last_index(with_dot, '.') == stem.len());
    assert((with_dot + e).skip(stem.len() as int + 1) =~= e);
    let lone = Seq::<char>::empty().push('.');
    assert(seq!['.'] + e =~= lone + e);
    lemma_last_index_past(lone, e, '.');
    assert(last_index(lone, '.') == 0);
    lemma_last_index_none(e, '.');
}

/// A file name whose text after its last `.` is `wav`, `flac`, `mp3`, `aiff` or `aif`
/// (in any case) is a supported audio file name, whatever dots its stem holds.
pub proof fn lemma_supported_name_by_last_extension(stem: Seq<char>, e: Seq<char>)
    requires
        stem.len() > 0,
        !e.contains('.'),
        supported_extension(e),
    ensures
        is_supported_audio_name_text(Some(stem + seq!['.'] + e)),
{
    lemma_extension_after_last_dot(stem, e);
}

/// The audio formats the reader takes: `wav`, `flac`, `mp3`, `aiff`, `aif` in any case.
pub open spec fn supported_extension(e: Seq<char>) -> bool {
    let l = crate::music::lower(e);
    ||| l == seq!['w', 'a', 'v']
    ||| l == seq!['f', 'l', 'a', 'c']
    ||| l == seq!['m', 'p', '3']
    ||| l == seq!['a', 'i', 'f', 'f']
    ||| l == seq!['a', 'i', 'f']
}

/// A path names a supported audio file by its extension.
pub open spec fn is_supported_audio_path(p: Seq<char>) -> bool {
    match file_name_of(p) {
        Some(n) => match extension_of(n) {
            Some(e) => supported_extension(e),
            None => false,
        },
        None => false,
    }
}

/// The name shown for a path: its file name, else the path itself.
pub open spec fn display_name(p: Seq<char>) -> Seq<char> {
    match file_name_of(p) {
        Some(n) => n,
        None => p,
    }
}

/// The label of a completion: the file name of the path without trailing separators,
/// with one separator added back for a folder.
pub open spec fn option_label(p: Seq<char>) -> Seq<char> {
    let t = trim_end_seps(p);
    let name = match file_name_of(t) {
        Some(n) => n,
        None => t,
    };
    if ends_with_sep(p) {
        name.push('/')
    } else {
        name
    }
}

/// `~` and `~/...` expanded with the home folder (nothing when it is unknown); other
/// paths as they are.
pub open spec fn expand_home(p: Seq<char>, home: Option<Seq<char>>) -> Option<Seq<char>> {
    if p == seq!['~'] {
        home
    } else if has_prefix(p, seq!['~', '/']) {
        match home {
            Some(h) => Some(joined_path(h, p.skip(2))),
            None => None,
        }
    } else {
        Some(p)
    }
}

/// Completion browses a folder: the input is blank or ends with a separator.
pub open spec fn browses_folder(input: Seq<char>) -> bool {
    let t = trim_end(trim_start(input));
    t.len() == 0 || ends_with_sep(t)
}

/// Where completion looks: the folder to list, the text shown for it (none for the
/// current folder) and the prefix that names must start with.
pub struct CompletionContext {
    pub fs_parent: String,
    pub display_parent: Option<String>,
    pub prefix: String,
}

/// The parent that completion lists for an input without a trailing separator: the
/// path's parent, or `.` when it has none.
pub open spec fn listed_parent(input: Seq<char>) -> Seq<char> {
    match parent_of(input) {
        Some(p) => if p.len() > 0 { p } else { seq!['.'] },
        None => seq!['.'],
    }
}

/// The completion context of an input, when its folder can be expanded.
pub open spec fn completion_context_of(input: Seq<char>, home: Option<Seq<char>>) -> Option<(Seq<char>, Option<Seq<char>>, Seq<char>)> {
    if ends_with_sep(input) {
        match expand_home(input, home) {
            Some(f) => Some((f, Some(trim_end_seps(input)), Seq::<char>::empty())),
            None => None,
        }
    } else {
        let p = listed_parent(input);
        match expand_home(p, home) {
            Some(f) => Some((
                f,
                if same_path(p, seq!['.']) { None } else { Some(p) },
                match file_name_of(input) {
                    Some(n) => n,
                    None => Seq::<char>::empty(),
                },
            )),
            None => None,
        }
    }
}

/// The completion text for an entry at `path`: the entry's name under the shown parent
/// (or the whole path when no parent is shown), with a separator after a folder.
pub open spec fn completion_text(path: Seq<char>, is_dir: bool, display_parent: Option<Seq<char>>) -> Seq<char> {
    let name = match file_name_of(path) {
        Some(n) => n,
        None => Seq::<char>::empty(),
    };
    let v = match display_parent {
        Some(d) => if d.len() == 0 { name } else { d.push('/') + name },
        None => path,
    };
    if is_dir && !ends_with_sep(v) {
        v.push('/')
    } else {
        v
    }
}

/// Two-digit text of a number below 100, padded with a zero; longer otherwise.
pub open spec fn pad2(t: Seq<char>) -> Seq<char> {
    if t.len() < 2 {
        seq!['0'] + t
    } else {
        t
    }
}

/// `mm:ss` of a number of seconds.
pub open spec fn elapsed_text(total_seconds: nat) -> Seq<char> {
    pad2(crate::stream::decimal_text(total_seconds / 60)) + seq![':'] + pad2(
        crate::stream::decimal_text(total_seconds % 60),
    )
}

fn ends_with_sep_exec(s: &[char]) -> (r: bool)
    ensures
        r == ends_with_sep(s@),
{
    s.len() > 0 && s[s.len() - 1] == '/'
}

fn trim_end_seps_exec(s: &[char]) -> (r: &[char])
    ensures
        r@ == trim_end_seps(s@),
{
    let mut end = s.len();
    assert(s@.subrange(0, end as int) =~= s@);
    while end > 0 && s[end - 1] == '/'
        invariant
            end <= s@.len(),
            trim_end_seps(s@) == trim_end_seps(s@.subrange(0, end as int)),
        decreases end,
    {
        assert(s@.subrange(0, end as int).drop_last() =~= s@.subrange(0, end - 1));
        end = end - 1;
    }
    crate::text::char_range(s, 0, end)
}

fn last_index_exec(s: &[char], c: char) -> (r: Option<usize>)
    ensures
        match r {
            Some(i) => i == last_index(s@, c) && i < s@.len(),
            None => last_index(s@, c) == -1,
        },
{
    let mut end = s.len();
    assert(s@.subrange(0, end as int) =~= s@);
    while end > 0
        invariant
            end <= s@.len(),
            last_index(s@, c) == last_index(s@.subrange(0, end as int), c),
        decreases end,
    {
        if s[end - 1] == c {
            return Some(end - 1);
        }
        assert(s@.subrange(0, end as int).drop_last() =~= s@.subrange(0, end - 1));
        end = end - 1;
    }
    None
}

fn extension_chars(name: &[char]) -> (r: Option<&[char]>)
    ensures
        match r {
            Some(e) => extension_of(name@) == Some(e@),
            None => extension_of(name@).is_none(),
        },
{
    match last_index_exec(name, '.') {
        Some(i) => {
            if i == 0 {
                None
            } else {
                assert(i < name.len());
                let e = crate::text::char_range(name, i + 1, name.len());
                assert(e@ =~= name@.skip(i + 1));
                Some(e)
            }
        },
        None => None,
    }
}

fn supported_extension_exec(e: &[char]) -> (r: bool)
    ensures
        r == supported_extension(e@),
{
    let l = crate::music::lower_chars(e);
    let l = l.as_slice();
    let wav = ['w', 'a', 'v'];
    let flac = ['f', 'l', 'a', 'c'];
    let mp3 = ['m', 'p', '3'];
    let aiff = ['a', 'i', 'f', 'f'];
    let aif = ['a', 'i', 'f'];
    assert(wav@ =~= seq!['w', 'a', 'v'] && flac@ =~= seq!['f', 'l', 'a', 'c'] && mp3@ =~= seq!['m', 'p', '3']);
    assert(aiff@ =~= seq!['a', 'i', 'f', 'f'] && aif@ =~= seq!['a', 'i', 'f']);
    crate::music::equals_word(l, &wav) || crate::music::equals_word(l, &flac)
        || crate::music::equals_word(l, &mp3) || crate::music::equals_word(l, &aiff)
        || crate::music::equals_word(l, &aif)
}

/// A file name (if any) has a supported audio extension.
pub open spec fn is_supported_audio_name_text(name: Option<Seq<char>>) -> bool {
    match name {
        Some(n) => match extension_of(n) {
            Some(e) => supported_extension(e),
            None => false,
        },
        None => false,
    }
}

/// Whether a file name (a path's final component, if it has one) has a supported audio
/// extension (`wav`, `flac`, `mp3`, `aiff` or `aif`, in any case).
pub fn is_supported_audio_name(name: Option<&str>) -> (r: bool)
    ensures
        r == is_supported_audio_name_text(match name {
            Some(n) => Some(n@),
            None => None,
        }),
{
    match name {
        Some(n) => {
            let chars = chars_of(n);
            match extension_chars(chars.as_slice()) {
                Some(e) => supported_extension_exec(e),
                None => false,
            }
        },
        None => false,
    }
}

/// Whether a path names a supported audio file (by its extension, in any case).
pub fn is_supported_audio_file(path: &str) -> (r: bool)
    ensures
        r == is_supported_audio_path(path@),
{
    let name = path_file_name(path);
    match &name {
        Some(n) => is_supported_audio_name(Some(n.as_str())),
        None => is_supported_audio_name(None),
    }
}

/// The name shown for a queued path: its file name, else the whole path.
pub fn display_path_name(path: &str) -> (r: String)
    ensures
        r@ == display_name(path@),
{
    match path_file_name(path) {
        Some(name) => name,
        None => path.to_owned(),
    }
}

/// The label of a completion option: its last component, with a trailing separator
/// kept for a folder.
pub fn completion_option_label(path: &str) -> (r: String)
    ensures
        r@ == option_label(path@),
{
    let chars = chars_of(path);
    let c = chars.as_slice();
    let is_dir = ends_with_sep_exec(c);
    let trimmed = trim_end_seps_exec(c);
    let trimmed_text = string_from_chars(trimmed);
    let mut label: Vec<char> = match path_file_name(trimmed_text.as_str()) {
        Some(name) => chars_of(name.as_str()),
        None => chars_of(trimmed_text.as_str()),
    };
    if is_dir {
        label.push('/');
    }
    string_from_chars(label.as_slice())
}

/// Expand `~` and `~/...` with the home folder; nothing when the home folder is needed
/// but unknown.
pub fn expand_user_path_with_home(path: &str, home: Option<&str>) -> (r: Option<String>)
    ensures
        opt_text(r) == expand_home(path@, match home {
            Some(h) => Some(h@),
            None => None,
        }),
{
    let chars = chars_of(path);
    let c = chars.as_slice();
    if c.len() == 1 && c[0] == '~' {
        assert(path@ =~= seq!['~']);
        return match home {
            Some(h) => Some(h.to_owned()),
            None => None,
        };
    }
    if c.len() >= 2 && c[0] == '~' && c[1] == '/' {
        assert(has_prefix(path@, seq!['~', '/'])) by {
            assert(path@.take(2) =~= seq!['~', '/']);
        }
        assert(path@ != seq!['~']) by {
            assert(path@.len() != 1);
        }
        let rest = string_from_chars(crate::text::char_range(c, 2, c.len()));
        assert(rest@ =~= path@.skip(2));
        return match home {
            Some(h) => Some(path_join(h, rest.as_str())),
            None => None,
        };
    }
    assert(!has_prefix(path@, seq!['~', '/'])) by {
        if has_prefix(path@, seq!['~', '/']) {
            assert(path@.take(2)[0] == '~' && path@.take(2)[1] == '/');
        }
    }
    assert(path@ != seq!['~']) by {
        if path@ == seq!['~'] {
            assert(c@.len() == 1 && c@[0] == '~');
        }
    }
    Some(path.to_owned())
}

/// Whether completion should list a folder's entries: the input is blank or ends with a
/// separator.
pub fn is_browse_completion_input(input: &str) -> (r: bool)
    ensures
        r == browses_folder(input@),
{
    let t = crate::music::trim_text(input);
    t.len() == 0 || ends_with_sep_exec(t.as_slice())
}

/// Where completion of `input` looks, or nothing when `~` cannot be expanded.
pub fn completion_context(input: &str, home: Option<&str>) -> (r: Option<CompletionContext>)
    ensures
        ({
            let h = match home {
                Some(h) => Some(h@),
                None => None,
            };
            match completion_context_of(input@, h) {
                Some((f, d, p)) => r matches Some(c) && c.fs_parent@ == f && opt_text(c.display_parent) == d && c.prefix@ == p,
                None => r.is_none(),
            }
        }),
{
    let chars = chars_of(input);
    let c = chars.as_slice();
    if ends_with_sep_exec(c) {
        let fs_parent = match expand_user_path_with_home(input, home) {
            Some(f) => f,
            None => return None,
        };
        let display = string_from_chars(trim_end_seps_exec(c));
        let empty: [char; 0] = [];
        let prefix = string_from_chars(&empty);
        assert(prefix@ =~= Seq::<char>::empty());
        return Some(CompletionContext { fs_parent, display_parent: Some(display), prefix });
    }
    let dot = ['.'];
    assert(dot@ =~= seq!['.']);
    let parent: String = match path_parent(input) {
        Some(p) => {
            if chars_of(p.as_str()).len() > 0 {
                p
            } else {
                string_from_chars(&dot)
            }
        },
        None => string_from_chars(&dot),
    };
    assert(parent@ == listed_parent(input@));
    let fs_parent = match expand_user_path_with_home(parent.as_str(), home) {
        Some(f) => f,
        None => return None,
    };
    let dot_text = string_from_chars(&dot);
    let display_parent = if paths_equal(parent.as_str(), dot_text.as_str()) {
        None
    } else {
        Some(parent)
    };
    let prefix = match path_file_name(input) {
        Some(n) => n,
        None => {
            let empty: [char; 0] = [];
            let e = string_from_chars(&empty);
            assert(e@ =~= Seq::<char>::empty());
            e
        },
    };
    Some(CompletionContext { fs_parent, display_parent, prefix })
}

/// The completion text of an entry at `path`, shown under `display_parent` (the whole
/// path when none is given), with a trailing separator for a folder.
pub fn completion_value(path: &str, is_dir: bool, display_parent: Option<&str>) -> (r: String)
    ensures
        r@ == completion_text(path@, is_dir, match display_parent {
            Some(d) => Some(d@),
            None => None,
        }),
{
    let name: Vec<char> = match path_file_name(path) {
        Some(n) => chars_of(n.as_str()),
        None => Vec::new(),
    };
    let mut value: Vec<char> = match display_parent {
        Some(d) => {
            let dc = chars_of(d);
            if dc.len() == 0 {
                name
            } else {
                let mut v = dc;
                v.push('/');
                crate::stream::push_chars(&mut v, name.as_slice());
                v
            }
        },
        None => chars_of(path),
    };
    if is_dir && !ends_with_sep_exec(value.as_slice()) {
        value.push('/');
    }
    string_from_chars(value.as_slice())
}

fn push_pad2(out: &mut Vec<char>, n: u64)
    ensures
        final(out)@ == old(out)@ + pad2(crate::stream::decimal_text(n as nat)),
{
    let mut digits: Vec<char> = Vec::new();
    crate::stream::push_decimal(&mut digits, n);
    assert(digits@ =~= crate::stream::decimal_text(n as nat));
    if digits.len() < 2 {
        out.push('0');
    }
    let ghost before = out@;
    crate::stream::push_chars(out, digits.as_slice());
    assert(out@ =~= old(out)@ + pad2(crate::stream::decimal_text(n as nat)));
}

/// Elapsed time as `mm:ss` (minutes grow past two digits when needed).
pub fn format_elapsed(total_seconds: u64) -> (r: String)
    ensures
        r@ == elapsed_text(total_seconds as nat),
{
    let mut out: Vec<char> = Vec::new();
    push_pad2(&mut out, total_seconds / 60);
    out.push(':');
    push_pad2(&mut out, total_seconds % 60);
    assert(out@ =~= elapsed_text(total_seconds as nat));
    string_from_chars(out.as_slice())
}

/// The texts of some strings.
pub open spec fn text_views(v: Seq<String>) -> Seq<Seq<char>> {
    v.map_values(|s: String| s@)
}

/// Texts in path order (each no later than the next).
pub open spec fn sorted_texts(v: Seq<Seq<char>>) -> bool {
    forall|i: int, j: int| 0 <= i < j < v.len() ==> !chars_less(#[trigger] v[j], #[trigger] v[i])
}

/// The paths among `v` that name supported audio files, in their order.
pub open spec fn audio_texts(v: Seq<Seq<char>>) -> Seq<Seq<char>> {
    v.filter(|p: Seq<char>| is_supported_audio_path(p))
}

proof fn lemma_insert_sorted(v: Seq<Seq<char>>, p: int, x: Seq<char>)
    requires
        sorted_texts(v),
        0 <= p <= v.len(),
        forall|i: int| 0 <= i < p ==> !chars_less(x, #[trigger] v[i]),
        p < v.len() ==> chars_less(x, v[p]),
    ensures
        sorted_texts(v.insert(p, x)),
{
    let w = v.insert(p, x);
    assert forall|i: int, j: int| 0 <= i < j < w.len() implies !chars_less(#[trigger] w[j], #[trigger] w[i]) by {
        if i == p {
            let vj = v[j - 1];
            if j - 1 == p {
                crate::text::lemma_chars_less_total(x, v[p]);
            } else {
                assert(!chars_less(v[j - 1], v[p]));
                if chars_less(vj, x) {
                    crate::text::lemma_chars_less_transitive(vj, x, v[p]);
                }
            }
        } else if j == p {
            assert(w[i] == v[i]);
        } else {
            let vi = if i < p { i } else { i - 1 };
            let vj = if j < p { j } else { j - 1 };
            assert(w[i] == v[vi] && w[j] == v[vj]);
            assert(vi < vj);
        }
    }
}

/// The strings of `v` in path order.
fn sort_texts(v: Vec<String>) -> (r: Vec<String>)
    ensures
        sorted_texts(text_views(r@)),
        text_views(r@).to_multiset() == text_views(v@).to_multiset(),
{
    let mut out: Vec<String> = Vec::new();
    let mut k: usize = 0;
    assert(text_views(out@) =~= Seq::<Seq<char>>::empty());
    assert(text_views(v@).take(0) =~= Seq::<Seq<char>>::empty());
    while k < v.len()
        invariant
            k <= v@.len(),
            sorted_texts(text_views(out@)),
            text_views(out@).to_multiset() == text_views(v@).take(k as int).to_multiset(),
        decreases v@.len() - k,
    {
        let e = &v[k];
        let ec = chars_of(e.as_str());
        let mut p: usize = 0;
        while p < out.len() && !crate::text::chars_before(ec.as_slice(), chars_of(out[p].as_str()).as_slice())
            invariant
                p <= out@.len(),
                ec@ == e@,
                forall|i: int| 0 <= i < p ==> !chars_less(e@, #[trigger] text_views(out@)[i]),
            decreases out@.len() - p,
        {
            p = p + 1;
        }
        proof {
            lemma_insert_sorted(text_views(out@), p as int, e@);
        }
        let ghost before = out@;
        out.insert(p, e.clone());
        assert(text_views(out@) =~= text_views(before).insert(p as int, e@));
        assert(text_views(out@).to_multiset() == text_views(before).to_multiset().insert(e@)) by {
            vstd::seq_lib::to_multiset_insert(text_views(before), p as int, e@);
        }
        assert(text_views(v@).take(k + 1) =~= text_views(v@).take(k as int).push(e@));
        assert(text_views(v@).take(k + 1).to_multiset() == text_views(v@).take(k as int).to_multiset().insert(e@)) by {
            vstd::seq_lib::to_multiset_build(text_views(v@).take(k as int), e@);
        }
        k = k + 1;
    }
    assert(text_views(v@).take(v@.len() as int) =~= text_views(v@));
    out
}

/// The supported audio files among a folder's file entries, in path order.
pub fn collect_audio_files(entries: &Vec<String>) -> (files: Vec<String>)
    ensures
        sorted_texts(text_views(files@)),
        text_views(files@).to_multiset() == audio_texts(text_views(entries@)).to_multiset(),
{
    let mut found: Vec<String> = Vec::new();
    let mut k: usize = 0;
    proof {
        reveal(Seq::filter);
        assert(text_views(entries@).take(0) =~= Seq::<Seq<char>>::empty());
        assert(text_views(found@) =~= audio_texts(text_views(entries@).take(0)));
    }
    while k < entries.len()
        invariant
            k <= entries@.len(),
            text_views(found@) == audio_texts(text_views(entries@).take(k as int)),
        decreases entries@.len() - k,
    {
        let e = &entries[k];
        proof {
            reveal(Seq::filter);
            assert(text_views(entries@).take(k + 1).drop_last() =~= text_views(entries@).take(k as int));
        }
        if is_supported_audio_file(e.as_str()) {
            found.push(e.clone());
        }
        assert(text_views(found@) =~= audio_texts(text_views(entries@).take(k + 1)));
        k = k + 1;
    }
    assert(text_views(entries@).take(entries@.len() as int) =~= text_views(entries@));
    sort_texts(found)
}

/// A folder entry as listed: its name (entries whose names are not text are left out) and
/// whether it is a folder or a file.
#[derive(Debug, Clone)]
pub struct DirEntryInfo {
    pub name: String,
    pub is_dir: bool,
    pub is_file: bool,
}

/// The completion an entry of the folder `parent` offers: none for hidden entries and names
/// that do not start with `prefix` (ASCII case ignored); a folder's text with a trailing
/// separator; a supported audio file's text; nothing else.
pub open spec fn entry_completion(e: DirEntryInfo, parent: Seq<char>, display_parent: Option<Seq<char>>, prefix: Seq<char>) -> Option<Seq<char>> {
    let n = e.name@;
    if n.len() > 0 && n[0] == '.' {
        None
    } else if !has_prefix(crate::music::lower(n), crate::music::lower(prefix)) {
        None
    } else {
        let path = joined_path(parent, n);
        if e.is_dir {
            Some(completion_text(path, true, display_parent))
        } else if e.is_file && is_supported_audio_path(path) {
            Some(completion_text(path, false, display_parent))
        } else {
            None
        }
    }
}

/// The completions offered by a folder's entries, in path order.
pub fn completion_values(entries: &Vec<DirEntryInfo>, parent: &str, display_parent: Option<&str>, prefix: &str) -> (r: Vec<String>)
    ensures
        ({
            let d = match display_parent {
                Some(d) => Some(d@),
                None => None,
            };
            &&& sorted_texts(text_views(r@))
            &&& text_views(r@).to_multiset() == entries@.filter_map(|e: DirEntryInfo| entry_completion(e, parent@, d, prefix@)).to_multiset()
        }),
{
    let ghost d = match display_parent {
        Some(d) => Some(d@),
        None => None,
    };
    let ghost f = |e: DirEntryInfo| entry_completion(e, parent@, d, prefix@);
    let prefix_chars = chars_of(prefix);
    let lower_prefix = crate::music::lower_chars(prefix_chars.as_slice());
    let mut found: Vec<String> = Vec::new();
    let mut k: usize = 0;
    assert(entries@.take(0) =~= Seq::<DirEntryInfo>::empty());
    assert(text_views(found@) =~= entries@.take(0).filter_map(f));
    while k < entries.len()
        invariant
            k <= entries@.len(),
            lower_prefix@ == crate::music::lower(prefix@),
            f == (|e: DirEntryInfo| entry_completion(e, parent@, d, prefix@)),
            d == match display_parent {
                Some(d) => Some(d@),
                None => None::<Seq<char>>,
            },
            text_views(found@) == entries@.take(k as int).filter_map(f),
        decreases entries@.len() - k,
    {
        let e = &entries[k];
        proof {
            entries@.lemma_filter_map_take_succ(f, k as int);
        }
        let name = chars_of(e.name.as_str());
        let hidden = name.len() > 0 && name[0] == '.';
        let ghost before = found@;
        if !hidden {
            let lower_name = crate::music::lower_chars(name.as_slice());
            if crate::text::starts_with(lower_name.as_slice(), lower_prefix.as_slice()) {
                let path = path_join(parent, e.name.as_str());
                if e.is_dir {
                    found.push(completion_value(path.as_str(), true, display_parent));
                } else if e.is_file && is_supported_audio_file(path.as_str()) {
                    found.push(completion_value(path.as_str(), false, display_parent));
                }
            }
        }
        assert(text_views(found@) =~= entries@.take(k + 1).filter_map(f));
        k = k + 1;
    }
    assert(entries@.take(entries@.len() as int) =~= entries@);
    sort_texts(found)
}

/// What completion of `input` lists: a blank input lists the current folder; otherwise
/// the folder the input names or is in (nothing when `~` cannot be expanded).
pub fn completion_plan(input: &str, home: Option<&str>) -> (r: Option<CompletionContext>)
    ensures
        ({
            let t = trim_end(trim_start(input@));
            let h = match home {
                Some(h) => Some(h@),
                None => None,
            };
            if t.len() == 0 {
                r matches Some(c) && c.fs_parent@ == seq!['.'] && opt_text(c.display_parent) == Some(Seq::<char>::empty()) && c.prefix@.len() == 0
            } else {
                match completion_context_of(t, h) {
                    Some((fp, dp, px)) => r matches Some(c) && c.fs_parent@ == fp && opt_text(c.display_parent) == dp && c.prefix@ == px,
                    None => r.is_none(),
                }
            }
        }),
{
    let t = crate::music::trim_text(input);
    if t.len() == 0 {
        let dot = ['.'];
        let empty: [char; 0] = [];
        assert(dot@ =~= seq!['.']);
        return Some(CompletionContext {
            fs_parent: string_from_chars(&dot),
            display_parent: Some(string_from_chars(&empty)),
            prefix: string_from_chars(&empty),
        });
    }
    let trimmed = string_from_chars(t.as_slice());
    completion_context(trimmed.as_str(), home)
}

} // verus!
