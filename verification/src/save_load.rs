//! Naming of saved universes: where they are written and which files are saves.

use vstd::prelude::*;

verus! {

/// Directory of the saves, under the assets.
pub const SAVES_DIR: &'static str = "saves";

/// Extension of a save file.
pub const SAVE_EXTENSION: &'static str = "scn.ron";

/// Whether `s` ends with `suffix`.
pub open spec fn ends_with(s: Seq<char>, suffix: Seq<char>) -> bool {
    s.len() >= suffix.len() && s.subrange(s.len() - suffix.len(), s.len() as int) == suffix
}

/// Whether `pattern` occurs in `s` at position `i`.
pub open spec fn occurs_at(s: Seq<char>, pattern: Seq<char>, i: int) -> bool {
    0 <= i && i + pattern.len() <= s.len() && s.subrange(i, i + pattern.len()) == pattern
}

/// `s` without the first occurrence of `pattern` (unchanged when there is
/// none).
pub open spec fn without_first(s: Seq<char>, pattern: Seq<char>) -> Seq<char> {
    if exists|i: int| occurs_at(s, pattern, i) {
        let i = choose|i: int| occurs_at(s, pattern, i) && forall|j: int| 0 <= j < i ==> !occurs_at(s, pattern, j);
        s.subrange(0, i) + s.subrange(i + pattern.len(), s.len() as int)
    } else {
        s
    }
}

/// Path of the file a universe is saved to:
/// `assets/saves/<universe_name>.scn.ron`.
pub fn save_file_path(universe_name: &str) -> (r: String)
    ensures
        r@ == "assets/"@ + SAVES_DIR@ + "/"@ + universe_name@ + "."@ + SAVE_EXTENSION@,
{
    let mut path = String::from_str("assets/");
    path.append(SAVES_DIR);
    path.append("/");
    path.append(universe_name);
    path.append(".");
    path.append(SAVE_EXTENSION);
    path
}

/// Asset path a universe is loaded from: `saves/<universe_name>.scn.ron`.
pub fn save_asset_path(universe_name: &str) -> (r: String)
    ensures
        r@ == SAVES_DIR@ + "/"@ + universe_name@ + "."@ + SAVE_EXTENSION@,
{
    let mut path = String::from_str(SAVES_DIR);
    path.append("/");
    path.append(universe_name);
    path.append(".");
    path.append(SAVE_EXTENSION);
    path
}

/// The characters of a string.
fn chars_of(s: &str) -> (r: Vec<char>)
    ensures
        r@ == s@,
{
    let n = s.unicode_len();
    let mut r: Vec<char> = Vec::new();
    let mut i: usize = 0;
    while i < n
        invariant
            n == s@.len(),
            0 <= i <= n,
            r@ == s@.subrange(0, i as int),
        decreases n - i,
    {
        r.push(s.get_char(i));
        proof {
            assert(r@ =~= s@.subrange(0, i + 1));
        }
        i = i + 1;
    }
    proof {
        assert(r@ =~= s@);
    }
    r
}

/// Whether `pattern` occurs in `s` at position `i`.
fn matches_at(s: &Vec<char>, pattern: &Vec<char>, i: usize) -> (r: bool)
    ensures
        r == occurs_at(s@, pattern@, i as int),
{
    let n = s.len();
    if i > n || pattern.len() > n - i {
        return false;
    }
    let mut k: usize = 0;
    while k < pattern.len()
        invariant
            n == s@.len(),
            i + pattern@.len() <= s@.len(),
            0 <= k <= pattern@.len(),
            forall|j: int| 0 <= j < k ==> s@[i + j] == pattern@[j],
        decreases pattern@.len() - k,
    {
        assert(i + k < s@.len());
        if s[i + k] != pattern[k] {
            proof {
                assert(s@.subrange(i as int, i + pattern@.len())[k as int] != pattern@[k as int]);
            }
            return false;
        }
        k = k + 1;
    }
    proof {
        assert(s@.subrange(i as int, i + pattern@.len()) =~= pattern@);
    }
    true
}

/// The universe a save file holds, from the file's name: for a name ending
/// with the save extension, the name without the first occurrence of
/// `.scn.ron`; other files are not saves.
pub fn universe_name_of_file(file_name: &str) -> (r: Option<String>)
    ensures
        r is Some <==> ends_with(file_name@, SAVE_EXTENSION@),
        r matches Some(name) ==> name@ == without_first(file_name@, "."@ + SAVE_EXTENSION@),
{
    let s = chars_of(file_name);
    let extension = chars_of(SAVE_EXTENSION);
    if extension.len() > s.len() {
        return None;
    }
    if !matches_at(&s, &extension, s.len() - extension.len()) {
        return None;
    }
    let mut dotted = String::from_str(".");
    dotted.append(SAVE_EXTENSION);
    let pattern = chars_of(dotted.as_str());
    let mut i: usize = 0;
    while i < s.len()
        invariant
            s@ == file_name@,
            pattern@ == "."@ + SAVE_EXTENSION@,
            ends_with(file_name@, SAVE_EXTENSION@),
            0 <= i <= s@.len(),
            forall|j: int| 0 <= j < i ==> !occurs_at(s@, pattern@, j),
        decreases s@.len() - i,
    {
        if matches_at(&s, &pattern, i) {
            let head = file_name.substring_char(0, i);
            let tail = file_name.substring_char(i + pattern.len(), s.len());
            let name = String::from_str(head).concat(tail);
            proof {
                assert(occurs_at(file_name@, pattern@, i as int));
                let c = choose|c: int| occurs_at(file_name@, pattern@, c) && forall|j: int| 0 <= j < c ==> !occurs_at(file_name@, pattern@, j);
                if c < i {
                } else if c > i {
                    assert(!occurs_at(file_name@, pattern@, i as int));
                }
                assert(c == i);
            }
            return Some(name);
        }
        i = i + 1;
    }
    proof {
        reveal_strlit(".");
        assert(pattern@.len() >= 1);
        assert forall|j: int| !occurs_at(file_name@, pattern@, j) by {
            if 0 <= j < s@.len() {
            }
        }
    }
    Some(String::from_str(file_name))
}


/// The dotted save extension, character by character.
proof fn lemma_dotted_extension()
    ensures
        "."@ + SAVE_EXTENSION@ == seq!['.', 's', 'c', 'n', '.', 'r', 'o', 'n'],
        SAVE_EXTENSION@ == seq!['s', 'c', 'n', '.', 'r', 'o', 'n'],
{
    reveal_strlit(".");
    reveal_strlit("scn.ron");
    assert(SAVE_EXTENSION@ =~= seq!['s', 'c', 'n', '.', 'r', 'o', 'n']);
    assert("."@ + SAVE_EXTENSION@ =~= seq!['.', 's', 'c', 'n', '.', 'r', 'o', 'n']);
}

/// Position `j`, inside a name where the dotted extension does not start,
/// is no occurrence of it once the extension is appended: the extension has
/// no proper prefix that is also its suffix.
proof fn lemma_no_occurrence_at(u: Seq<char>, pat: Seq<char>, j: int)
    requires
        pat == seq!['.', 's', 'c', 'n', '.', 'r', 'o', 'n'],
        0 <= j < u.len(),
        !occurs_at(u, pat, j),
    ensures
        !occurs_at(u + pat, pat, j),
{
    let file = u + pat;
    let n = u.len() as int;
    if occurs_at(file, pat, j) {
        let window = file.subrange(j, j + 8);
        if j + 8 <= n {
            assert(u.subrange(j, j + 8) =~= window);
        } else {
            let k = n - j;
            assert(window[k] == file[n]);
            assert(file[n] == '.');
            assert(window[k] == pat[k]);
            assert(window[k + 1] == file[n + 1]);
            assert(file[n + 1] == 's');
            assert(window[k + 1] == pat[k + 1]);
        }
    }
}

/// Appending the dotted extension to a name in which it does not occur puts
/// its first occurrence right after the name.
proof fn lemma_first_occurrence_after(u: Seq<char>, pat: Seq<char>)
    requires
        pat == seq!['.', 's', 'c', 'n', '.', 'r', 'o', 'n'],
        forall|i: int| !occurs_at(u, pat, i),
    ensures
        occurs_at(u + pat, pat, u.len() as int),
        forall|j: int| 0 <= j < u.len() ==> !occurs_at(u + pat, pat, j),
{
    let n = u.len() as int;
    assert((u + pat).subrange(n, n + 8) =~= pat);
    assert forall|j: int| 0 <= j < n implies !occurs_at(u + pat, pat, j) by {
        lemma_no_occurrence_at(u, pat, j);
    }
}

/// A saved universe is listed under its own name, and loaded from the file it
/// was saved to: for a universe name `u` in which ".scn.ron" does not occur,
/// the file `u.scn.ron` that `save_file_path(u)` names in the saves directory
/// ends with the save extension, `universe_name_of_file` gives back `u` for it,
/// and `save_asset_path(u)` names the same file under the assets.
pub proof fn law_saved_universe_is_listed(u: Seq<char>)
    requires
        forall|i: int| !occurs_at(u, "."@ + SAVE_EXTENSION@, i),
    ensures
        ({
            let file = u + "."@ + SAVE_EXTENSION@;
            &&& ends_with(file, SAVE_EXTENSION@)
            &&& without_first(file, "."@ + SAVE_EXTENSION@) == u
            &&& "assets/"@ + SAVES_DIR@ + "/"@ + u + "."@ + SAVE_EXTENSION@ == "assets/"@ + SAVES_DIR@ + "/"@ + file
            &&& SAVES_DIR@ + "/"@ + u + "."@ + SAVE_EXTENSION@ == SAVES_DIR@ + "/"@ + file
        }),
{
    lemma_dotted_extension();
    let pat = "."@ + SAVE_EXTENSION@;
    let file = u + "."@ + SAVE_EXTENSION@;
    assert(file =~= u + pat);
    let n = u.len() as int;
    lemma_first_occurrence_after(u, pat);
    assert(file.subrange(file.len() - 7, file.len() as int) =~= SAVE_EXTENSION@);
    assert(occurs_at(file, pat, n) && forall|j: int| 0 <= j < n ==> !occurs_at(file, pat, j));
    let c = choose|c: int| occurs_at(file, pat, c) && forall|j: int| 0 <= j < c ==> !occurs_at(file, pat, j);
    if c > n {
        assert(!occurs_at(file, pat, n));
    }
    assert(c == n);
    assert(file.subrange(0, n) + file.subrange(n + 8, file.len() as int) =~= u);
    assert("assets/"@ + SAVES_DIR@ + "/"@ + u + "."@ + SAVE_EXTENSION@ =~= "assets/"@ + SAVES_DIR@ + "/"@ + file);
    assert(SAVES_DIR@ + "/"@ + u + "."@ + SAVE_EXTENSION@ =~= SAVES_DIR@ + "/"@ + file);
}

} // verus!
