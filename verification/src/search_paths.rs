//! Where the launcher looks for desktop files and icon themes, from the home
//! directory and the XDG variables.
use vstd::prelude::*;
use crate::text::{chars_of, contains_string, copy_str, string_of, strs};

verus! {

/// `base` joined with the relative path `seg`, as `Path::join` joins them on
/// Unix: a separator goes between them unless `base` is empty or already
/// ends with one.
pub open spec fn joined(base: Seq<char>, seg: Seq<char>) -> Seq<char> {
    if base.len() > 0 && base.last() != '/' {
        base + "/"@ + seg
    } else {
        base + seg
    }
}

/// `base` joined with the relative path `seg`.
pub fn join_path(base: &str, seg: &str) -> (r: String)
    ensures
        r@ == joined(base@, seg@),
{
    proof {
        reveal_strlit("/");
    }
    let cs = chars_of(base);
    let mut r = copy_str(base);
    if cs.len() > 0 && cs[cs.len() - 1] != '/' {
        r.push('/');
    }
    r.append(seg);
    assert(r@ =~= joined(base@, seg@));
    r
}

/// The pieces of `s` between colons, in order, as `str::split(':')` gives
/// them: empty pieces included, one piece when there is no colon.
pub open spec fn colon_pieces(s: Seq<char>) -> Seq<Seq<char>>
    decreases s.len(),
{
    if s.len() == 0 {
        seq![Seq::empty()]
    } else {
        let prev = colon_pieces(s.drop_last());
        if s.last() == ':' {
            prev.push(Seq::empty())
        } else {
            prev.update(prev.len() - 1, prev.last().push(s.last()))
        }
    }
}

proof fn lemma_colon_pieces_nonempty(s: Seq<char>)
    ensures
        colon_pieces(s).len() > 0,
    decreases s.len(),
{
    if s.len() > 0 {
        lemma_colon_pieces_nonempty(s.drop_last());
    }
}

/// The pieces of `s` between colons.
pub fn split_colons(s: &str) -> (r: Vec<String>)
    ensures
        strs(r@) == colon_pieces(s@),
{
    let cs = chars_of(s);
    let mut done: Vec<String> = Vec::new();
    let mut cur: Vec<char> = Vec::new();
    let mut i: usize = 0;
    assert(cs@.take(0) =~= Seq::<char>::empty());
    while i < cs.len()
        invariant
            i <= cs@.len(),
            cs@ == s@,
            strs(done@).push(cur@) == colon_pieces(cs@.take(i as int)),
        decreases cs@.len() - i,
    {
        let ghost before = cs@.take(i as int);
        assert(cs@.take(i + 1).drop_last() =~= before);
        proof {
            lemma_colon_pieces_nonempty(before);
        }
        let c = cs[i];
        if c == ':' {
            let piece = string_of(&cur);
            done.push(piece);
            cur = Vec::new();
            assert(strs(done@).push(cur@) =~= colon_pieces(before).push(Seq::empty()));
        } else {
            cur.push(c);
            assert(strs(done@).push(cur@) =~= colon_pieces(before).update(
                colon_pieces(before).len() - 1,
                colon_pieces(before).last().push(c),
            ));
        }
        i = i + 1;
    }
    assert(cs@.take(cs@.len() as int) =~= cs@);
    let last = string_of(&cur);
    done.push(last);
    assert(strs(done@) =~= colon_pieces(s@));
    done
}

/// The data directories used when `XDG_DATA_DIRS` is not set.
pub open spec fn default_data_dirs() -> Seq<char> {
    "/usr/local/share:/usr/share"@
}

/// The non-empty pieces of `dirs`, each joined with `seg`.
pub open spec fn joined_pieces(dirs: Seq<Seq<char>>, seg: Seq<char>) -> Seq<Seq<char>>
    decreases dirs.len(),
{
    if dirs.len() == 0 {
        Seq::empty()
    } else {
        let prev = joined_pieces(dirs.drop_last(), seg);
        if dirs.last().len() > 0 {
            prev.push(joined(dirs.last(), seg))
        } else {
            prev
        }
    }
}

/// The icon theme directories to search, before those that do not exist
/// are dropped: `~/.icons` and the user data directory's `icons` (when
/// there is a home), the `icons` of each data directory, then the pixmaps
/// directory.
pub open spec fn icon_dirs(home: Seq<char>, data_home: Option<Seq<char>>, data_dirs: Option<Seq<char>>) -> Seq<
    Seq<char>,
> {
    let user = if home.len() > 0 {
        let dh = match data_home {
            Some(d) => d,
            None => joined(home, ".local/share"@),
        };
        seq![joined(home, ".icons"@), joined(dh, "icons"@)]
    } else {
        Seq::empty()
    };
    let dd = match data_dirs {
        Some(d) => d,
        None => default_data_dirs(),
    };
    user + joined_pieces(colon_pieces(dd), "icons"@) + seq!["/usr/share/pixmaps"@]
}

/// The icon theme directories to search, given the home directory and the
/// values of `XDG_DATA_HOME` and `XDG_DATA_DIRS` (`None` when not set).
pub fn icon_search_dirs(home: &str, data_home: Option<&str>, data_dirs: Option<&str>) -> (r: Vec<String>)
    ensures
        strs(r@) == icon_dirs(
            home@,
            match data_home {
                Some(d) => Some(d@),
                None => None,
            },
            match data_dirs {
                Some(d) => Some(d@),
                None => None,
            },
        ),
{
    let ghost dhv = match data_home {
        Some(d) => Some(d@),
        None => None::<Seq<char>>,
    };
    let ghost ddv = match data_dirs {
        Some(d) => Some(d@),
        None => None::<Seq<char>>,
    };
    let mut r: Vec<String> = Vec::new();
    if !home.is_empty() {
        r.push(join_path(home, ".icons"));
        let dh = match data_home {
            Some(d) => copy_str(d),
            None => join_path(home, ".local/share"),
        };
        r.push(join_path(dh.as_str(), "icons"));
    }
    let ghost user = strs(r@);
    proof {
        if home@.len() > 0 {
            let dh = match dhv {
                Some(d) => d,
                None => joined(home@, ".local/share"@),
            };
            assert(user =~= seq![joined(home@, ".icons"@), joined(dh, "icons"@)]);
        } else {
            assert(user =~= Seq::<Seq<char>>::empty());
        }
    }
    let pieces = match data_dirs {
        Some(d) => split_colons(d),
        None => split_colons("/usr/local/share:/usr/share"),
    };
    let ghost pv = strs(pieces@);
    let mut i: usize = 0;
    assert(pv.take(0) =~= Seq::<Seq<char>>::empty());
    assert(strs(r@) =~= user + joined_pieces(pv.take(0), "icons"@));
    while i < pieces.len()
        invariant
            i <= pieces@.len(),
            pv == strs(pieces@),
            strs(r@) == user + joined_pieces(pv.take(i as int), "icons"@),
        decreases pieces@.len() - i,
    {
        assert(pv.take(i + 1).drop_last() =~= pv.take(i as int));
        assert(pv[i as int] == pieces@[i as int]@);
        assert(pv.take(i + 1).last() == pv[i as int]);
        if !pieces[i].as_str().is_empty() {
            let ghost prev = strs(r@);
            let j = join_path(pieces[i].as_str(), "icons");
            r.push(j);
            assert(strs(r@) =~= prev.push(joined(pv[i as int], "icons"@)));
            assert(joined_pieces(pv.take(i + 1), "icons"@) == joined_pieces(pv.take(i as int), "icons"@).push(
                joined(pv[i as int], "icons"@),
            ));
            assert(strs(r@) =~= user + joined_pieces(pv.take(i + 1), "icons"@));
        }
        i = i + 1;
    }
    assert(pv.take(pieces@.len() as int) =~= pv);
    assert(pv == colon_pieces(
        match ddv {
            Some(d) => d,
            None => default_data_dirs(),
        },
    ));
    r.push(copy_str("/usr/share/pixmaps"));
    assert(strs(r@) =~= icon_dirs(home@, dhv, ddv));
    r
}

/// `dirs` with each of `more` added at the end unless it is there already
/// (compared as text).
pub open spec fn with_new(dirs: Seq<Seq<char>>, more: Seq<Seq<char>>) -> Seq<Seq<char>>
    decreases more.len(),
{
    if more.len() == 0 {
        dirs
    } else {
        let prev = with_new(dirs, more.drop_last());
        if prev.contains(more.last()) {
            prev
        } else {
            prev.push(more.last())
        }
    }
}

/// Each piece of `dirs` joined with `seg`, empty pieces included.
pub open spec fn joined_all(dirs: Seq<Seq<char>>, seg: Seq<char>) -> Seq<Seq<char>> {
    dirs.map_values(|d: Seq<char>| joined(d, seg))
}

/// The directories of desktop files to read, in order: the system ones, the
/// user's (when there is a home), then the `applications` of each piece of
/// `XDG_DATA_DIRS` (when set) that is not listed yet.
pub open spec fn application_dirs(home: Seq<char>, data_dirs: Option<Seq<char>>) -> Seq<Seq<char>> {
    let base = seq!["/usr/share/applications"@, "/usr/local/share/applications"@];
    let with_home = if home.len() > 0 {
        base.push(joined(home, ".local/share/applications"@))
    } else {
        base
    };
    match data_dirs {
        Some(d) => with_new(with_home, joined_all(colon_pieces(d), "applications"@)),
        None => with_home,
    }
}

/// The directories of desktop files to read, given the home directory and
/// the value of `XDG_DATA_DIRS` (`None` when not set).
pub fn application_search_dirs(home: &str, data_dirs: Option<&str>) -> (r: Vec<String>)
    ensures
        strs(r@) == application_dirs(
            home@,
            match data_dirs {
                Some(d) => Some(d@),
                None => None,
            },
        ),
{
    let mut r: Vec<String> = Vec::new();
    r.push(copy_str("/usr/share/applications"));
    r.push(copy_str("/usr/local/share/applications"));
    if !home.is_empty() {
        r.push(join_path(home, ".local/share/applications"));
    }
    let ghost with_home = strs(r@);
    proof {
        let base = seq!["/usr/share/applications"@, "/usr/local/share/applications"@];
        if home@.len() > 0 {
            assert(with_home =~= base.push(joined(home@, ".local/share/applications"@)));
        } else {
            assert(with_home =~= base);
        }
    }
    match data_dirs {
        None => {},
        Some(d) => {
            let pieces = split_colons(d);
            let ghost jv = joined_all(strs(pieces@), "applications"@);
            let mut i: usize = 0;
            assert(jv.take(0) =~= Seq::<Seq<char>>::empty());
            while i < pieces.len()
                invariant
                    i <= pieces@.len(),
                    jv == joined_all(strs(pieces@), "applications"@),
                    strs(r@) == with_new(with_home, jv.take(i as int)),
                decreases pieces@.len() - i,
            {
                assert(jv.take(i + 1).drop_last() =~= jv.take(i as int));
                let app_dir = join_path(pieces[i].as_str(), "applications");
                assert(app_dir@ == jv[i as int]);
                if !contains_string(&r, app_dir.as_str()) {
                    r.push(app_dir);
                    assert(strs(r@) =~= with_new(with_home, jv.take(i as int)).push(jv[i as int]));
                }
                i = i + 1;
            }
            assert(jv.take(pieces@.len() as int) =~= jv);
        },
    }
    r
}

} // verus!
