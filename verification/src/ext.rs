//! The audio-extension allow-list applied during file discovery, and the
//! path rules it needs: the file name is what follows the last '/', and the
//! extension is what follows the last '.' of the file name, unless that dot
//! leads the file name.

use vstd::prelude::*;
use vstd::string::{StrSliceExecFns, StringExecFns};

verus! {

/// The file name: the characters after the last '/', possibly empty.
pub open spec fn file_name_of(p: Seq<char>) -> Seq<char>
    decreases p.len(),
{
    if p.len() == 0 {
        p
    } else if p.last() == '/' {
        Seq::empty()
    } else {
        file_name_of(p.drop_last()).push(p.last())
    }
}

/// The characters after the last '.', unless no '.' exists or the only '.'
/// leads the sequence (a dotfile has no extension).
pub open spec fn after_last_dot(f: Seq<char>) -> Option<Seq<char>>
    decreases f.len(),
{
    if f.len() == 0 {
        None
    } else if f.last() == '.' {
        if f.len() == 1 {
            None
        } else {
            Some(Seq::empty())
        }
    } else {
        match after_last_dot(f.drop_last()) {
            Some(e) => Some(e.push(f.last())),
            None => None,
        }
    }
}

/// The extension of a path.
pub open spec fn ext_of(p: Seq<char>) -> Option<Seq<char>> {
    after_last_dot(file_name_of(p))
}

/// The fixed, case-sensitive audio-extension allow-list.
pub open spec fn is_audio_ext(e: Seq<char>) -> bool {
    ||| e == "mp3"@
    ||| e == "flac"@
    ||| e == "opus"@
    ||| e == "ape"@
    ||| e == "ogg"@
    ||| e == "mka"@
    ||| e == "webm"@
    ||| e == "aac"@
    ||| e == "alac"@
    ||| e == "m4a"@
    ||| e == "caf"@
    ||| e == "wma"@
    ||| e == "wav"@
}

/// A path names a candidate audio file exactly when it has an extension on
/// the allow-list.
pub open spec fn is_audio_path_spec(p: Seq<char>) -> bool {
    match ext_of(p) {
        Some(e) => is_audio_ext(e),
        None => false,
    }
}

/// When nothing from `fstart` on is a '/', and `fstart` is the start or
/// preceded by one, the file name is exactly the characters from `fstart`.
proof fn lemma_file_name(p: Seq<char>, fstart: int)
    requires
        0 <= fstart <= p.len(),
        fstart == 0 || p[fstart - 1] == '/',
        forall|j: int| fstart <= j < p.len() ==> p[j] != '/',
    ensures
        file_name_of(p) == p.subrange(fstart, p.len() as int),
    decreases p.len(),
{
    if p.len() == 0 {
        assert(p.subrange(0, 0) =~= p);
    } else if fstart == p.len() {
        assert(p.last() == '/');
        assert(p.subrange(fstart, p.len() as int) =~= Seq::<char>::empty());
    } else {
        assert(p.last() != '/');
        lemma_file_name(p.drop_last(), fstart);
        assert(p.drop_last().subrange(fstart, p.len() - 1).push(p.last()) =~= p.subrange(
            fstart,
            p.len() as int,
        ));
    }
}

/// A last '.' at `di`, not leading, yields the characters after it.
proof fn lemma_after_last_dot_found(f: Seq<char>, di: int)
    requires
        0 < di < f.len(),
        f[di] == '.',
        forall|j: int| di < j < f.len() ==> f[j] != '.',
    ensures
        after_last_dot(f) == Some(f.subrange(di + 1, f.len() as int)),
    decreases f.len(),
{
    if di == f.len() - 1 {
        assert(f.subrange(di + 1, f.len() as int) =~= Seq::<char>::empty());
    } else {
        assert(f.last() != '.');
        lemma_after_last_dot_found(f.drop_last(), di);
        assert(f.drop_last().subrange(di + 1, f.len() - 1).push(f.last()) =~= f.subrange(
            di + 1,
            f.len() as int,
        ));
    }
}

/// With no '.' after the first character there is no extension.
proof fn lemma_after_last_dot_none(f: Seq<char>)
    requires
        forall|j: int| 1 <= j < f.len() ==> f[j] != '.',
    ensures
        after_last_dot(f) == None::<Seq<char>>,
    decreases f.len(),
{
    if f.len() > 1 {
        assert(f.last() != '.');
        lemma_after_last_dot_none(f.drop_last());
    } else if f.len() == 1 {
        assert(after_last_dot(f.drop_last()) == None::<Seq<char>>);
    }
}

/// The file name of a path: the characters after the last '/'.
pub fn file_name(path: &str) -> (r: String)
    ensures
        r@ == file_name_of(path@),
{
    let n = path.unicode_len();
    let mut fstart: usize = n;
    while fstart > 0 && path.get_char(fstart - 1) != '/'
        invariant
            n == path@.len(),
            fstart <= n,
            forall|j: int| fstart <= j < n ==> path@[j] != '/',
        decreases fstart,
    {
        fstart = fstart - 1;
    }
    proof {
        lemma_file_name(path@, fstart as int);
    }
    path.substring_char(fstart, n).to_owned()
}

/// Whether a path passes the audio-extension allow-list; rejection is
/// expected and silent.
pub fn is_audio_path(path: &str) -> (r: bool)
    ensures
        r == is_audio_path_spec(path@),
{
    let n = path.unicode_len();
    let mut fstart: usize = n;
    while fstart > 0 && path.get_char(fstart - 1) != '/'
        invariant
            n == path@.len(),
            fstart <= n,
            forall|j: int| fstart <= j < n ==> path@[j] != '/',
        decreases fstart,
    {
        fstart = fstart - 1;
    }
    proof {
        lemma_file_name(path@, fstart as int);
    }
    let ghost f = path@.subrange(fstart as int, n as int);
    let mut dot: usize = n;
    while dot > fstart && path.get_char(dot - 1) != '.'
        invariant
            fstart <= dot <= n <= path@.len(),
            n == path@.len(),
            forall|j: int| dot <= j < n ==> path@[j] != '.',
        decreases dot,
    {
        dot = dot - 1;
    }
    if dot - fstart <= 1 {
        // no '.' in the file name, or only a leading one
        proof {
            assert(forall|j: int| 1 <= j < f.len() ==> f[j] == path@[fstart + j] && f[j] != '.');
            lemma_after_last_dot_none(f);
        }
        return false;
    }
    proof {
        assert(path@[dot - 1] == '.');
        assert(f[dot - 1 - fstart] == '.');
        assert(forall|j: int| dot - 1 - fstart < j < f.len() ==> f[j] == path@[fstart + j] && f[j]
            != '.');
        lemma_after_last_dot_found(f, dot - 1 - fstart);
    }
    let e = path.substring_char(dot, n).to_owned();
    proof {
        assert(e@ =~= f.subrange(dot - fstart, f.len() as int));
    }
    let r = e == String::from_str("mp3") || e == String::from_str("flac") || e == String::from_str(
        "opus",
    ) || e == String::from_str("ape") || e == String::from_str("ogg") || e == String::from_str(
        "mka",
    ) || e == String::from_str("webm") || e == String::from_str("aac") || e == String::from_str(
        "alac",
    ) || e == String::from_str("m4a") || e == String::from_str("caf") || e == String::from_str(
        "wma",
    ) || e == String::from_str("wav");
    r
}

} // verus!
