//! Directories as they are shown: base names, parents, and the path field of
//! the window title.

use vstd::prelude::*;
use vstd::string::{StrSliceExecFns, StringExecFns};

use crate::text::{find_last_slash, same_text, starts_with, strip_prefix, trim, trim_end_slashes};
use crate::text::{blank_means_white_space_alone, lemma_strip_tail};
use crate::text::{is_blank, is_white_space, last_slash, optional_str_view, strip_end, trimmed};

verus! {

/// How the working directory is rendered in the window title.
#[derive(Debug, Clone, Copy, PartialEq, Eq, Structural)]
pub enum PathStyle {
    /// `$HOME`-relative with a leading tilde, matching tmux's
    /// `#{s|$HOME|~|:pane_current_path}`.
    Tilde,
    /// The absolute path, unmodified.
    Full,
    /// Only the final component.
    Basename,
    /// Omit the path entirely.
    Omit,
}

/// `path` without its trailing slashes.
pub open spec fn without_trailing_slashes(path: Seq<char>) -> Seq<char> {
    strip_end(path, |c: char| c == '/')
}

/// The final component of `path`, trailing slashes aside; a path of nothing
/// but slashes is its own base name.
pub open spec fn base_name(path: Seq<char>) -> Seq<char> {
    let whole = without_trailing_slashes(path);
    if whole.len() == 0 {
        path
    } else {
        match last_slash(whole) {
            Some(i) => whole.skip(i + 1),
            None => whole,
        }
    }
}

/// The directory that holds `path`'s final component, if `path` names one.
pub open spec fn parent_of(path: Seq<char>) -> Option<Seq<char>> {
    let whole = without_trailing_slashes(path);
    match last_slash(whole) {
        Some(i) => Some(
            if i == 0 {
                seq!['/']
            } else {
                whole.take(i)
            },
        ),
        None => None,
    }
}

/// Whether `dir` goes on with a slash after `base`.
pub open spec fn goes_on_from(dir: Seq<char>, base: Seq<char>) -> bool {
    base.is_prefix_of(dir) && dir.len() > base.len() && dir[base.len() as int] == '/'
}

/// Whether `dir` is `home` itself, as it is written or without its trailing
/// slashes.
pub open spec fn is_home(dir: Seq<char>, home: Seq<char>) -> bool {
    dir == home || (dir.len() > 0 && dir == without_trailing_slashes(home))
}

/// Whether `dir` names something that lies under `home` once the trailing
/// slashes of `home` are left out.
pub open spec fn is_below(dir: Seq<char>, home: Seq<char>) -> bool {
    let root = without_trailing_slashes(home);
    goes_on_from(dir, root) && without_trailing_slashes(dir.skip(root.len() as int)).len() > 0
}

/// `dir` with `home` abbreviated to a tilde: with `home` as it is written where
/// `dir` goes on from it, else without its trailing slashes.
pub open spec fn with_tilde(dir: Seq<char>, home: Seq<char>) -> Seq<char> {
    if is_home(dir, home) {
        seq!['~']
    } else if goes_on_from(dir, home) {
        seq!['~'] + dir.skip(home.len() as int)
    } else if is_below(dir, home) {
        seq!['~'] + dir.skip(without_trailing_slashes(home).len() as int)
    } else {
        dir
    }
}

/// A directory as the title shows it.
pub open spec fn rendered_path(
    cwd: Seq<char>,
    style: PathStyle,
    home: Option<Seq<char>>,
) -> Seq<char> {
    let dir = trimmed(cwd);
    match style {
        PathStyle::Omit => Seq::empty(),
        PathStyle::Full => cwd,
        PathStyle::Basename => base_name(dir),
        PathStyle::Tilde => match home {
            Some(home) => if is_blank(home) {
                dir
            } else {
                with_tilde(dir, trimmed(home))
            },
            None => dir,
        },
    }
}

/// The final component of `path`, trailing slashes aside; a path of nothing
/// but slashes is returned as it is.
pub fn basename(path: &str) -> (name: &str)
    ensures
        name@ == base_name(path@),
{
    let whole: &str = trim_end_slashes(path);
    if whole.is_empty() {
        return path;
    }
    match find_last_slash(whole) {
        Some(i) => {
            let len: usize = whole.unicode_len();
            proof {
                lemma_last_slash(whole@);
            }
            whole.substring_char(i + 1, len)
        },
        None => whole,
    }
}

/// The directory that holds `path`'s final component, if `path` names one.
pub fn parent(path: &str) -> (r: Option<&str>)
    ensures
        optional_str_view(r) == parent_of(path@),
{
    let whole: &str = trim_end_slashes(path);
    match find_last_slash(whole) {
        Some(i) => {
            proof {
                lemma_last_slash(whole@);
                reveal_strlit("/");
            }
            if i == 0 {
                Some("/")
            } else {
                Some(whole.substring_char(0, i))
            }
        },
        None => None,
    }
}

/// What follows `base` in `dir`, if `dir` goes on from it with a slash.
fn strip_slashed<'a>(dir: &'a str, base: &str) -> (r: Option<&'a str>)
    ensures
        match r {
            Some(rest) => goes_on_from(dir@, base@) && rest@ == dir@.skip(base@.len() as int),
            None => !goes_on_from(dir@, base@),
        },
{
    match strip_prefix(dir, base) {
        Some(rest) => if starts_with(rest, '/') {
            Some(rest)
        } else {
            None
        },
        None => None,
    }
}

/// Render a directory for the title. `Tilde` reproduces tmux's
/// `#{s|$HOME|~|:pane_current_path}`: `$HOME` itself becomes `~`, paths under
/// it get a `~/` prefix, everything else is left alone. A `$HOME` that is
/// written with trailing slashes is found without them too.
pub fn render_path(cwd: &str, style: PathStyle, home: Option<&str>) -> (r: String)
    ensures
        r@ == rendered_path(cwd@, style, optional_str_view(home)),
{
    let dir: &str = trim(cwd);
    match style {
        PathStyle::Omit => String::new(),
        PathStyle::Full => cwd.to_string(),
        PathStyle::Basename => basename(dir).to_string(),
        PathStyle::Tilde => {
            let home: &str = match home {
                Some(home) => trim(home),
                None => {
                    return dir.to_string();
                },
            };
            if home.is_empty() {
                return dir.to_string();
            }
            proof {
                reveal_strlit("~");
            }
            let root: &str = trim_end_slashes(home);
            if same_text(dir, home) || (!dir.is_empty() && same_text(dir, root)) {
                return "~".to_string();
            }
            let rest: &str = match strip_slashed(dir, home) {
                Some(rest) => rest,
                None => match strip_slashed(dir, root) {
                    Some(rest) => if trim_end_slashes(rest).is_empty() {
                        return dir.to_string();
                    } else {
                        rest
                    },
                    None => {
                        return dir.to_string();
                    },
                },
            };
            let mut shown: String = "~".to_string();
            shown.append(rest);
            shown
        },
    }
}

/// The last slash is a slash, and none follows it.
pub proof fn lemma_last_slash(s: Seq<char>)
    ensures
        match last_slash(s) {
            Some(i) => 0 <= i < s.len() && s[i] == '/' && forall|j: int|
                i < j < s.len() ==> s[j] != '/',
            None => forall|j: int| 0 <= j < s.len() ==> s[j] != '/',
        },
    decreases s.len(),
{
    if s.len() > 0 && s.last() != '/' {
        lemma_last_slash(s.drop_last());
        assert(forall|j: int| 0 <= j < s.len() - 1 ==> #[trigger] s[j] == s.drop_last()[j]);
    }
}

/// What is left after the trailing slashes does not end in a slash, and is a
/// prefix of the path; nothing but slashes follows it.
proof fn lemma_without_trailing_slashes(path: Seq<char>)
    ensures
        without_trailing_slashes(path).is_prefix_of(path),
        without_trailing_slashes(path).len() > 0 ==> without_trailing_slashes(path).last() != '/',
        forall|i: int|
            without_trailing_slashes(path).len() <= i < path.len() ==> path[i] == '/',
    decreases path.len(),
{
    if path.len() > 0 && path.last() == '/' {
        lemma_without_trailing_slashes(path.drop_last());
        assert forall|i: int|
            without_trailing_slashes(path).len() <= i < path.len() - 1 implies path[i] == '/' by {
            assert(path.drop_last()[i] == '/');
        }
    }
}

/// A base name is never empty unless the path is, and holds no slash unless
/// the path is nothing but slashes.
pub proof fn base_names_are_single_components(path: Seq<char>)
    ensures
        path.len() > 0 ==> base_name(path).len() > 0,
        base_name(path).contains('/') ==> forall|i: int|
            0 <= i < path.len() ==> path[i] == '/',
{
    lemma_without_trailing_slashes(path);
    lemma_last_slash(without_trailing_slashes(path));
}

/// Trailing slashes do not change a base name.
pub proof fn trailing_slashes_do_not_change_the_base_name(path: Seq<char>)
    requires
        without_trailing_slashes(path).len() > 0,
    ensures
        base_name(path.push('/')) == base_name(path),
{
    assert(path.push('/').drop_last() =~= path);
}

/// A base name is its own base name.
pub proof fn base_names_are_stable(path: Seq<char>)
    ensures
        base_name(base_name(path)) == base_name(path),
{
    base_names_are_single_components(path);
    let name = base_name(path);
    lemma_without_trailing_slashes(path);
    lemma_last_slash(name);
    if without_trailing_slashes(path).len() > 0 {
        lemma_last_slash(without_trailing_slashes(path));
        assert(last_slash(name) is None);
    }
}

/// The home directory shows as a tilde, with or without the slashes it may be
/// written with; a directory under it shows with a leading `~/`; and any other
/// directory, such as a sibling whose name merely starts like the home
/// directory's, shows unchanged.
pub proof fn tilde_stands_for_home_alone(cwd: Seq<char>, home: Seq<char>)
    requires
        !is_blank(home),
    ensures
        ({
            let dir = trimmed(cwd);
            let root = trimmed(home);
            let shown = rendered_path(cwd, PathStyle::Tilde, Some(home));
            if is_home(dir, root) {
                shown == seq!['~']
            } else if goes_on_from(dir, root) || is_below(dir, root) {
                seq!['~', '/'].is_prefix_of(shown)
            } else {
                shown == dir
            }
        }),
{
}

/// Whatever is found under the home directory shows under `~/`, by the way that
/// leads to it, whether or not the home directory is written with trailing
/// slashes.
pub proof fn what_lies_under_home_shows_under_a_tilde(home: Seq<char>, way: Seq<char>)
    requires
        way.len() > 0,
        way[0] != '/',
    ensures
        with_tilde(without_trailing_slashes(home) + seq!['/'] + way, home) == seq!['~', '/'] + way,
{
    let root = without_trailing_slashes(home);
    let dir = root + seq!['/'] + way;
    let rest = dir.skip(root.len() as int);
    lemma_without_trailing_slashes(home);
    lemma_without_trailing_slashes(rest);
    assert(rest =~= seq!['/'] + way);
    assert(rest[1] == way[0]);
    assert(dir[root.len() as int] == '/');
    assert(dir[root.len() as int + 1] == way[0]);
    assert(is_below(dir, home));
    assert(!is_home(dir, home));
    if goes_on_from(dir, home) {
        if home.len() > root.len() + 1 {
            assert(home[root.len() as int + 1] == dir[root.len() as int + 1]);
        }
        assert(home.len() == root.len());
        assert(home =~= root);
    }
}

/// Slashes at the end of a path are dropped, all of them and nothing else.
proof fn lemma_trailing_slashes(path: Seq<char>, slashes: Seq<char>)
    requires
        path.len() > 0 ==> path[path.len() - 1] != '/',
        forall|i: int| 0 <= i < slashes.len() ==> #[trigger] slashes[i] == '/',
    ensures
        without_trailing_slashes(path + slashes) == path,
{
    let drop = |c: char| c == '/';
    lemma_strip_tail(path, slashes, drop);
}

/// A base name is what follows the last slash, and a parent what comes before
/// it; slashes at the end of a path do not count.
pub proof fn paths_divide_at_the_last_slash(
    front: Seq<char>,
    name: Seq<char>,
    slashes: Seq<char>,
)
    requires
        name.len() > 0,
        forall|i: int| 0 <= i < name.len() ==> #[trigger] name[i] != '/',
        forall|i: int| 0 <= i < slashes.len() ==> #[trigger] slashes[i] == '/',
    ensures
        base_name(front + seq!['/'] + name + slashes) == name,
        base_name(name + slashes) == name,
        base_name(slashes) == slashes,
        parent_of(front + seq!['/'] + name + slashes) == Some(
            if front.len() == 0 {
                seq!['/']
            } else {
                front
            },
        ),
        parent_of(name + slashes) is None,
        parent_of(slashes) is None,
{
    let path = front + seq!['/'] + name;
    let at = front.len() as int;
    let none = Seq::<char>::empty();
    assert(path[path.len() - 1] == name[name.len() - 1]);
    lemma_trailing_slashes(path, slashes);
    lemma_trailing_slashes(name, slashes);
    lemma_trailing_slashes(none, slashes);
    assert(none + slashes =~= slashes);
    lemma_last_slash(path);
    lemma_last_slash(name);
    assert(path[at] == '/');
    assert forall|j: int| at < j < path.len() implies path[j] != '/' by {
        assert(path[j] == name[j - at - 1]);
    }
    assert(last_slash(path) == Some(at));
    assert(path.skip(at + 1) =~= name);
    assert(path.take(at) =~= front);
}

/// Where no home is known, and in the other styles, the directory shows as the
/// style has it: nothing, the directory as it came, its base name, or the
/// directory trimmed.
pub proof fn styles_without_a_tilde(cwd: Seq<char>, home: Option<Seq<char>>, blank: Seq<char>)
    requires
        forall|i: int| 0 <= i < blank.len() ==> is_white_space(#[trigger] blank[i]),
    ensures
        rendered_path(cwd, PathStyle::Omit, home).len() == 0,
        rendered_path(cwd, PathStyle::Full, home) == cwd,
        rendered_path(cwd, PathStyle::Basename, home) == base_name(trimmed(cwd)),
        rendered_path(cwd, PathStyle::Tilde, None) == trimmed(cwd),
        rendered_path(cwd, PathStyle::Tilde, Some(blank)) == trimmed(cwd),
{
    blank_means_white_space_alone(blank);
}

/// Which directories show with a tilde, where home is `root` with `slashes`
/// after it: home itself, written so or without the slashes; what goes on from
/// it with a slash; and what lies under `root`. Everything else shows as it is.
pub proof fn the_tilde_in_full(
    cwd: Seq<char>,
    home: Seq<char>,
    root: Seq<char>,
    slashes: Seq<char>,
    way: Seq<char>,
)
    requires
        root.len() > 0 ==> root[root.len() - 1] != '/',
        forall|i: int| 0 <= i < slashes.len() ==> #[trigger] slashes[i] == '/',
        trimmed(home) == root + slashes,
        trimmed(home).len() > 0,
    ensures
        ({
            let dir = trimmed(cwd);
            let shown = rendered_path(cwd, PathStyle::Tilde, Some(home));
            let goes_on = (root + slashes + seq!['/']).is_prefix_of(dir);
            let solid = exists|i: int| 0 <= i < way.len() && #[trigger] way[i] != '/';
            &&& dir == root + slashes ==> shown == seq!['~']
            &&& dir == root && root.len() > 0 ==> shown == seq!['~']
            &&& dir == root + slashes + seq!['/'] + way ==> shown == seq!['~', '/'] + way
            &&& dir == root + seq!['/'] + way && !goes_on && solid ==> shown == seq!['~', '/']
                + way
            &&& dir == root + seq!['/'] + way && !goes_on && !solid && dir != root + slashes
                ==> shown == dir
            &&& !(root + seq!['/']).is_prefix_of(dir) && !(dir == root && root.len() > 0)
                ==> shown == dir
        }),
{
    let dir = trimmed(cwd);
    let h = root + slashes;
    lemma_trailing_slashes(root, slashes);
    assert(without_trailing_slashes(h) == root);
    if dir == h + seq!['/'] + way {
        assert(dir.take(h.len() as int) =~= h);
        assert(dir[h.len() as int] == '/');
        assert(goes_on_from(dir, h));
        assert(seq!['~'] + dir.skip(h.len() as int) =~= seq!['~', '/'] + way);
    }
    if goes_on_from(dir, h) {
        assert((h + seq!['/']) =~= dir.take(h.len() as int + 1));
        assert((h + seq!['/']).is_prefix_of(dir));
        if slashes.len() > 0 {
            assert(h[root.len() as int] == slashes[0]);
            assert(dir[root.len() as int] == h[root.len() as int]);
        }
        assert((root + seq!['/']) =~= dir.take(root.len() as int + 1));
    }
    if (h + seq!['/']).is_prefix_of(dir) {
        assert((h + seq!['/'])[h.len() as int] == '/');
        assert(h =~= dir.take(h.len() as int));
    }
    if goes_on_from(dir, root) {
        assert((root + seq!['/']) =~= dir.take(root.len() as int + 1));
    }
    if dir == h && slashes.len() > 0 {
        assert(h[root.len() as int] == slashes[0]);
        assert((root + seq!['/']) =~= dir.take(root.len() as int + 1));
    }
    if dir == h && slashes.len() == 0 {
        assert(h =~= root);
    }
    if dir == root + seq!['/'] + way {
        let rest = dir.skip(root.len() as int);
        assert(rest =~= seq!['/'] + way);
        assert(root =~= dir.take(root.len() as int));
        assert(dir[root.len() as int] == '/');
        assert(goes_on_from(dir, root));
        lemma_without_trailing_slashes(rest);
        assert(seq!['~'] + rest =~= seq!['~', '/'] + way);
        if exists|i: int| 0 <= i < way.len() && #[trigger] way[i] != '/' {
            let i = choose|i: int| 0 <= i < way.len() && #[trigger] way[i] != '/';
            assert(rest[i + 1] == way[i]);
            assert(without_trailing_slashes(rest).len() > 0);
            if dir == h {
                assert(h[root.len() + 1 + i] == slashes[1 + i]);
                assert(dir[root.len() + 1 + i] == way[i]);
            }
        } else {
            let none = Seq::<char>::empty();
            assert(forall|j: int| 0 <= j < rest.len() ==> #[trigger] rest[j] == '/') by {
                assert forall|j: int| 0 <= j < rest.len() implies #[trigger] rest[j] == '/' by {
                    if j > 0 {
                        assert(rest[j] == way[j - 1]);
                    }
                }
            }
            lemma_trailing_slashes(none, rest);
            assert(none + rest =~= rest);
        }
    }
}

} // verus!
