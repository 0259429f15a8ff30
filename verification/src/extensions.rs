use vstd::prelude::*;

verus! {

/// The text after the last `.` of `s`, or all of `s` where it holds no `.`:
/// the last of the pieces that splitting `s` at each `.` gives.
pub open spec fn after_last_dot(s: Seq<char>) -> Seq<char>
    decreases s.len(),
{
    if s.len() == 0 {
        s
    } else if s.last() == '.' {
        Seq::empty()
    } else {
        after_last_dot(s.drop_last()).push(s.last())
    }
}

/// The media type that mime_guess gives for the file extension `ext`, as the
/// text of its essence (type and subtype, without parameters), `text/plain`
/// where it knows none.
pub uninterp spec fn mime_essence_for_ext(ext: Seq<char>) -> Seq<char>;

/// `mime_guess::MimeGuess::from_ext(ext).first_or_text_plain()` (mime_guess
/// 2.0.5), read by `Mime::essence_str`. The contract names the result, a
/// function of `ext` alone (a lookup in the crate's fixed table), and states
/// what the source shows of the empty extension: `from_ext` returns an empty
/// guess for it, and `first_or_text_plain` then gives `text/plain`.
#[verifier::external_body]
fn guess_mime_essence(ext: &str) -> (r: String)
    ensures
        r@ == mime_essence_for_ext(ext@),
        ext@.len() == 0 ==> r@ == "text/plain"@,
{
    mime_guess::MimeGuess::from_ext(ext).first_or_text_plain().essence_str().to_string()
}

/// A file path as the server reads it: its text where the path is valid
/// Unicode, `None` where it is not.
pub struct FilePath {
    text: Option<String>,
}

impl FilePath {
    /// The path whose text is `text` (`None` for a path that is not valid
    /// Unicode).
    pub fn new(text: Option<String>) -> (r: Self)
        ensures
            r.path_text() == (match text {
                Some(t) => Some(t@),
                None => None::<Seq<char>>,
            }),
    {
        FilePath { text }
    }

    /// The text of the path, if it is valid Unicode.
    pub closed spec fn path_text(&self) -> Option<Seq<char>> {
        match self.text {
            Some(t) => Some(t@),
            None => None,
        }
    }
}

/// Reading a path's text and splitting it at `.`.
pub trait PathBufFileUtilExt {
    /// The text of the path, if it is valid Unicode.
    spec fn text_of(&self) -> Option<Seq<char>>;

    /// Whether the path's text splits at `.` into more than one piece: it is
    /// valid Unicode and holds a `.`.
    fn is_file(&self) -> (r: bool)
        ensures
            r == (self.text_of() matches Some(t) && t.contains('.')),
    ;

    /// The last piece of the path's text split at `.`.
    fn get_file_ext(&self) -> (r: &str)
        requires
            self.text_of() is Some,
        ensures
            r@ == after_last_dot(self.text_of()->0),
    ;

    /// The last piece of the path's text split at `.`, as `get_file_ext` gives it.
    fn get_file_name(&self) -> (r: &str)
        requires
            self.text_of() is Some,
        ensures
            r@ == after_last_dot(self.text_of()->0),
    ;
}

/// Choosing the media type under which a file is served.
pub trait PathBufDetemineMimeExt: PathBufFileUtilExt {
    /// The media type that mime_guess gives for the path's extension (the
    /// last piece of its text split at `.`), as the text of its essence.
    fn get_mime_type(&self) -> (r: String)
        requires
            self.text_of() is Some,
        ensures
            r@ == mime_essence_for_ext(after_last_dot(self.text_of()->0)),
    ;
}

/// The position of the last `.` of `s`, if it holds one.
fn last_dot(s: &str) -> (r: Option<usize>)
    ensures
        match r {
            Some(i) => i < s@.len() && s@[i as int] == '.' && after_last_dot(s@) =~= s@.skip(i + 1),
            None => !s@.contains('.') && after_last_dot(s@) =~= s@,
        },
{
    let n = s.unicode_len();
    let mut i = n;
    proof {
        assert(s@.take(n as int) =~= s@);
    }
    while i > 0
        invariant
            n == s@.len(),
            i <= n,
            forall|j: int| i <= j < n ==> s@[j] != '.',
            after_last_dot(s@) =~= after_last_dot(s@.take(i as int)) + s@.skip(i as int),
        decreases i,
    {
        let c = s.get_char(i - 1);
        proof {
            let t = s@.take(i as int);
            assert(t.drop_last() =~= s@.take(i - 1));
            assert(t.last() == c);
        }
        if c == '.' {
            return Some(i - 1);
        }
        proof {
            assert(s@.skip(i - 1) =~= seq![c] + s@.skip(i as int));
        }
        i = i - 1;
    }
    proof {
        assert(s@.take(0) =~= Seq::<char>::empty());
        assert(s@.skip(0) =~= s@);
        if s@.contains('.') {
            let j = choose|j: int| 0 <= j < s@.len() && s@[j] == '.';
            assert(s@[j] != '.');
        }
    }
    None
}

/// The text after the last `.` of `s`, or all of `s` where it holds no `.`.
pub fn last_dot_piece(s: &str) -> (r: &str)
    ensures
        r@ == after_last_dot(s@),
{
    match last_dot(s) {
        Some(i) => {
            let n = s.unicode_len();
            s.substring_char(i + 1, n)
        },
        None => s,
    }
}

impl PathBufFileUtilExt for FilePath {
    open spec fn text_of(&self) -> Option<Seq<char>> {
        self.path_text()
    }

    fn is_file(&self) -> (r: bool) {
        match &self.text {
            None => false,
            Some(t) => match last_dot(t.as_str()) {
                Some(_) => true,
                None => false,
            },
        }
    }

    fn get_file_ext(&self) -> (r: &str) {
        match &self.text {
            Some(t) => last_dot_piece(t.as_str()),
            None => {
                proof {
                    assert(false);
                }
                ""
            },
        }
    }

    fn get_file_name(&self) -> (r: &str) {
        self.get_file_ext()
    }
}

impl PathBufDetemineMimeExt for FilePath {
    fn get_mime_type(&self) -> (r: String) {
        guess_mime_essence(self.get_file_ext())
    }
}

} // verus!
