//! The last active session of a workspace, kept as plain text in
//! `.nca/.last_session`.

use vstd::prelude::*;
use crate::text::{trim, trim_spec, trim_start_spec, trim_end_spec, is_white_space, opt_text};

verus! {

/// Tracks the last active session id for a workspace; the id is stored as
/// plain text in the file at `path`.
#[derive(Debug, Clone)]
pub struct LastSessionStore {
    path: String,
}

impl LastSessionStore {
    /// The path of the last-session file.
    pub closed spec fn path_spec(&self) -> Seq<char> {
        self.path@
    }

    /// A store at the given path (typically `<workspace>/.nca/.last_session`).
    pub fn new(path: &str) -> (r: Self)
        ensures
            r.path_spec() == path@,
    {
        LastSessionStore { path: String::from_str(path) }
    }

    /// Path to the last-session file.
    pub fn path(&self) -> (r: &str)
        ensures
            r@ == self.path_spec(),
    {
        self.path.as_str()
    }
}

/// Failure of a last-session file operation.
#[derive(Debug, Clone)]
pub enum LastSessionError {
    /// An I/O error, with its message.
    Io(String),
}

/// The session id that the last-session file content `content` names: the
/// content without surrounding white space, unless nothing is left.
pub open spec fn session_from_content_spec(content: Seq<char>) -> Option<Seq<char>> {
    if trim_spec(content).len() == 0 {
        None
    } else {
        Some(trim_spec(content))
    }
}

/// Reads the session id out of the content of a last-session file.
pub fn session_from_content(content: &str) -> (r: Option<String>)
    ensures
        opt_text(r) == session_from_content_spec(content@),
{
    let id = trim(content);
    if id.as_str().unicode_len() == 0 {
        None
    } else {
        Some(id)
    }
}

/// Text with no white space at either end is its own trimmed form.
pub proof fn lemma_trim_clean(s: Seq<char>)
    requires
        s.len() > 0 ==> !is_white_space(s[0]) && !is_white_space(s.last()),
    ensures
        trim_spec(s) == s,
{
}

/// Trimming twice trims no more than trimming once.
pub proof fn lemma_trim_idempotent(s: Seq<char>)
    ensures
        trim_spec(trim_spec(s)) == trim_spec(s),
{
    lemma_trim_shape(s);
    lemma_trim_clean(trim_spec(s));
}

proof fn lemma_trim_start_shape(s: Seq<char>)
    ensures
        trim_start_spec(s).len() > 0 ==> !is_white_space(trim_start_spec(s)[0]),
        exists|k: int| 0 <= k <= s.len() && trim_start_spec(s) == #[trigger] s.skip(k),
    decreases s.len(),
{
    if s.len() > 0 && is_white_space(s[0]) {
        lemma_trim_start_shape(s.drop_first());
        let k = choose|k: int|
            0 <= k <= s.drop_first().len() && trim_start_spec(s.drop_first()) == #[trigger] s.drop_first().skip(k);
        assert(s.drop_first().skip(k) =~= s.skip(k + 1));
    } else {
        assert(s.skip(0) =~= s);
    }
}

proof fn lemma_trim_end_shape(s: Seq<char>)
    ensures
        trim_end_spec(s).len() > 0 ==> !is_white_space(trim_end_spec(s).last()),
        trim_end_spec(s).len() > 0 && s.len() > 0 && !is_white_space(s[0]) ==> !is_white_space(
            trim_end_spec(s)[0],
        ),
        trim_end_spec(s).len() <= s.len(),
        forall|i: int| 0 <= i < trim_end_spec(s).len() ==> trim_end_spec(s)[i] == s[i],
    decreases s.len(),
{
    if s.len() > 0 && is_white_space(s.last()) {
        lemma_trim_end_shape(s.drop_last());
        assert forall|i: int| 0 <= i < trim_end_spec(s).len() implies trim_end_spec(s)[i] == s[i] by {
            assert(s.drop_last()[i] == s[i]);
        }
    }
}

proof fn lemma_trim_shape(s: Seq<char>)
    ensures
        trim_spec(s).len() > 0 ==> !is_white_space(trim_spec(s)[0]) && !is_white_space(
            trim_spec(s).last(),
        ),
{
    lemma_trim_start_shape(s);
    lemma_trim_end_shape(trim_start_spec(s));
}

/// Every character of `w` is white space.
pub open spec fn all_white_space(w: Seq<char>) -> bool {
    forall|i: int| 0 <= i < w.len() ==> is_white_space(#[trigger] w[i])
}

proof fn lemma_trim_start_all_space(w: Seq<char>)
    requires
        all_white_space(w),
    ensures
        trim_start_spec(w).len() == 0,
    decreases w.len(),
{
    if w.len() > 0 {
        assert(is_white_space(w[0]));
        assert forall|i: int| 0 <= i < w.drop_first().len() implies is_white_space(
            #[trigger] w.drop_first()[i],
        ) by {
            assert(w.drop_first()[i] == w[i + 1]);
        }
        lemma_trim_start_all_space(w.drop_first());
    }
}

proof fn lemma_trim_start_append(c: Seq<char>, w: Seq<char>)
    requires
        all_white_space(w),
    ensures
        trim_start_spec(c + w) == if trim_start_spec(c).len() > 0 {
            trim_start_spec(c) + w
        } else {
            Seq::<char>::empty()
        },
    decreases c.len(),
{
    if c.len() == 0 {
        assert(c + w =~= w);
        lemma_trim_start_all_space(w);
    } else if is_white_space(c[0]) {
        assert((c + w)[0] == c[0]);
        assert((c + w).drop_first() =~= c.drop_first() + w);
        lemma_trim_start_append(c.drop_first(), w);
    } else {
        assert((c + w)[0] == c[0]);
    }
}

proof fn lemma_trim_end_append(u: Seq<char>, w: Seq<char>)
    requires
        all_white_space(w),
    ensures
        trim_end_spec(u + w) == trim_end_spec(u),
    decreases w.len(),
{
    if w.len() == 0 {
        assert(u + w =~= u);
    } else {
        assert((u + w).last() == w.last());
        assert(is_white_space(w[w.len() - 1]));
        assert((u + w).drop_last() =~= u + w.drop_last());
        assert forall|i: int| 0 <= i < w.drop_last().len() implies is_white_space(
            #[trigger] w.drop_last()[i],
        ) by {
            assert(w.drop_last()[i] == w[i]);
        }
        lemma_trim_end_append(u, w.drop_last());
    }
}

/// White space appended to a last-session file never changes the session it
/// names (such as the line ending `\n` or `\r\n` an editor adds).
pub proof fn lemma_session_trailing_space(content: Seq<char>, w: Seq<char>)
    requires
        all_white_space(w),
    ensures
        session_from_content_spec(content + w) == session_from_content_spec(content),
{
    lemma_trim_start_append(content, w);
    if trim_start_spec(content).len() > 0 {
        lemma_trim_end_append(trim_start_spec(content), w);
    }
}

/// White space put in front of a last-session file's content never changes
/// the session it names.
pub proof fn lemma_session_leading_space(w: Seq<char>, content: Seq<char>)
    requires
        all_white_space(w),
    ensures
        session_from_content_spec(w + content) == session_from_content_spec(content),
    decreases w.len(),
{
    if w.len() > 0 {
        assert((w + content)[0] == w[0]);
        assert(is_white_space(w[0]));
        assert((w + content).drop_first() =~= w.drop_first() + content);
        assert forall|i: int| 0 <= i < w.drop_first().len() implies is_white_space(
            #[trigger] w.drop_first()[i],
        ) by {
            assert(w.drop_first()[i] == w[i + 1]);
        }
        lemma_session_leading_space(w.drop_first(), content);
    } else {
        assert(w + content =~= content);
    }
}

/// The session read from any content is the content with its white space
/// ends cut off: it is a piece of the content, it neither starts nor ends
/// with white space, and only white space lies outside it; content that is
/// all white space names no session.
pub proof fn lemma_session_is_trimmed_piece(content: Seq<char>)
    ensures
        session_from_content_spec(content) is None <==> all_white_space(content),
        session_from_content_spec(content) matches Some(id) ==> id.len() > 0 && !is_white_space(
            id[0],
        ) && !is_white_space(id.last()) && exists|i: int, j: int|
            #![trigger content.subrange(i, j)]
            0 <= i <= j <= content.len() && id == content.subrange(i, j) && all_white_space(
                content.subrange(0, i),
            ) && all_white_space(content.subrange(j, content.len() as int)),
{
    lemma_trim_shape(content);
    lemma_trim_piece(content);
}

/// `str::trim` cuts exactly the white space off both ends: the result is a
/// piece of the text that neither starts nor ends with white space, only
/// white space lies outside it, and it is empty exactly for text that is all
/// white space.
pub proof fn lemma_trim_law(s: Seq<char>)
    ensures
        trim_spec(s).len() > 0 ==> !is_white_space(trim_spec(s)[0]) && !is_white_space(
            trim_spec(s).last(),
        ),
        trim_spec(s).len() == 0 <==> all_white_space(s),
        exists|i: int, j: int|
            #![trigger s.subrange(i, j)]
            0 <= i <= j <= s.len() && trim_spec(s) == s.subrange(i, j) && all_white_space(
                s.subrange(0, i),
            ) && all_white_space(s.subrange(j, s.len() as int)),
{
    lemma_trim_shape(s);
    lemma_trim_piece(s);
}

proof fn lemma_trim_piece(s: Seq<char>)
    ensures
        exists|i: int, j: int|
            #![trigger s.subrange(i, j)]
            0 <= i <= j <= s.len() && trim_spec(s) == s.subrange(i, j) && all_white_space(
                s.subrange(0, i),
            ) && all_white_space(s.subrange(j, s.len() as int)),
        trim_spec(s).len() == 0 <==> all_white_space(s),
{
    let (i, u) = lemma_trim_start_piece(s);
    let j = lemma_trim_end_piece(u);
    assert(trim_spec(s) == u.subrange(0, j));
    assert(u.subrange(0, j) =~= s.subrange(i, i + j));
    assert(s.subrange(i + j, s.len() as int) =~= u.subrange(j, u.len() as int));
    assert(all_white_space(s.subrange(i + j, s.len() as int)));
    if trim_spec(s).len() == 0 {
        assert forall|k: int| 0 <= k < s.len() implies is_white_space(#[trigger] s[k]) by {
            if k < i {
                assert(s.subrange(0, i)[k] == s[k]);
            } else {
                assert(s.subrange(i + j, s.len() as int)[k - i - j] == s[k]);
            }
        }
    }
    if all_white_space(s) {
        lemma_trim_start_all_space(s);
    }
}

proof fn lemma_trim_start_piece(s: Seq<char>) -> (r: (int, Seq<char>))
    ensures
        0 <= r.0 <= s.len(),
        r.1 == s.subrange(r.0, s.len() as int),
        r.1 == trim_start_spec(s),
        all_white_space(s.subrange(0, r.0)),
    decreases s.len(),
{
    if s.len() > 0 && is_white_space(s[0]) {
        let (i, u) = lemma_trim_start_piece(s.drop_first());
        assert(s.drop_first().subrange(i, s.len() - 1) =~= s.subrange(i + 1, s.len() as int));
        assert forall|k: int| 0 <= k < i + 1 implies is_white_space(#[trigger] s.subrange(0, i + 1)[k]) by {
            if k > 0 {
                assert(s.subrange(0, i + 1)[k] == s.drop_first().subrange(0, i)[k - 1]);
            }
        }
        (i + 1, u)
    } else {
        assert(s.subrange(0, s.len() as int) =~= s);
        (0, s)
    }
}

proof fn lemma_trim_end_piece(u: Seq<char>) -> (j: int)
    ensures
        0 <= j <= u.len(),
        trim_end_spec(u) == u.subrange(0, j),
        all_white_space(u.subrange(j, u.len() as int)),
    decreases u.len(),
{
    if u.len() > 0 && is_white_space(u.last()) {
        let j = lemma_trim_end_piece(u.drop_last());
        assert(u.drop_last().subrange(0, j) =~= u.subrange(0, j));
        assert forall|k: int| 0 <= k < u.len() - j implies is_white_space(
            #[trigger] u.subrange(j, u.len() as int)[k],
        ) by {
            if k < u.len() - 1 - j {
                assert(u.subrange(j, u.len() as int)[k] == u.drop_last().subrange(j, u.len() - 1)[k]);
            }
        }
        j
    } else {
        assert(u.subrange(0, u.len() as int) =~= u);
        u.len() as int
    }
}

/// What the store writes is what it reads back: a session id with no white
/// space at either end, once written as the file's whole content, is read
/// back unchanged (an empty id reads back as no session).
pub proof fn lemma_session_round_trip(id: Seq<char>)
    requires
        id.len() > 0 ==> !is_white_space(id[0]) && !is_white_space(id.last()),
    ensures
        session_from_content_spec(id) == (if id.len() == 0 {
            None
        } else {
            Some(id)
        }),
{
    lemma_trim_clean(id);
}

/// Reading back a session id that was itself read from a file gives the same id.
pub proof fn lemma_session_reread(content: Seq<char>)
    ensures
        session_from_content_spec(content) matches Some(id) ==> session_from_content_spec(id)
            == Some(id),
{
    lemma_trim_idempotent(content);
}

} // verus!
