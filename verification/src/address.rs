//! Address resolution: from a raw `s3://container/key` string to a
//! structured reference into the remote blob store.

use vstd::prelude::*;
use vstd::string::StrSliceExecFns;
use vstd::string::StringExecFns;

verus! {

/// Why an address string failed to resolve.
#[derive(Clone, Copy, Debug, PartialEq, Eq, Structural)]
pub enum ParseError {
    /// The input does not begin with the `s3://` scheme prefix.
    MissingScheme,
    /// The container segment between the prefix and the first `/` is empty.
    MissingContainer,
}

/// A parsed reference to an object in the remote blob store: the container
/// (bucket) holding it, the key within the container, and an optional
/// extension hint for naming the local scratch file.
#[derive(Debug)]
pub struct RemoteReference {
    pub container: String,
    pub key: String,
    pub extension: Option<String>,
}

/// The mathematical shape of a resolved reference.
pub struct ReferenceModel {
    pub container: Seq<char>,
    pub key: Seq<char>,
    pub extension: Option<Seq<char>>,
}

impl View for RemoteReference {
    type V = ReferenceModel;

    open spec fn view(&self) -> ReferenceModel {
        ReferenceModel {
            container: self.container@,
            key: self.key@,
            extension: match self.extension {
                Some(e) => Some(e@),
                None => None,
            },
        }
    }
}

/// The recognized scheme prefix, `s3://`.
pub open spec fn scheme_prefix() -> Seq<char> {
    seq!['s', '3', ':', '/', '/']
}

/// Does `s` begin with the scheme prefix?
pub open spec fn has_scheme(s: Seq<char>) -> bool {
    s.len() >= 5 && s.take(5) == scheme_prefix()
}

/// Index of the first occurrence of `c` in `s`, or `s.len()` when absent.
pub open spec fn first_at(s: Seq<char>, c: char) -> int
    decreases s.len(),
{
    if s.len() == 0 {
        0
    } else if s[0] == c {
        0
    } else {
        1 + first_at(s.skip(1), c)
    }
}

/// Index of the last occurrence of `c` in `s`, or `-1` when absent.
pub open spec fn last_at(s: Seq<char>, c: char) -> int
    decreases s.len(),
{
    if s.len() == 0 {
        -1
    } else if s[s.len() - 1] == c {
        s.len() - 1
    } else {
        last_at(s.take(s.len() - 1), c)
    }
}

/// The container segment: everything between the scheme prefix and the
/// first `/` after it (or the whole remainder when there is no `/`).
pub open spec fn container_of(s: Seq<char>) -> Seq<char>
    recommends
        has_scheme(s),
{
    let rest = s.skip(5);
    rest.take(first_at(rest, '/'))
}

/// The key: everything after the first `/` that ends the container
/// segment, or empty when there is no such `/`.
pub open spec fn key_of(s: Seq<char>) -> Seq<char>
    recommends
        has_scheme(s),
{
    let rest = s.skip(5);
    let i = first_at(rest, '/');
    if i == rest.len() {
        Seq::<char>::empty()
    } else {
        rest.skip(i + 1)
    }
}

/// The extension hint: everything after the last `.` anywhere in the key,
/// or `None` when the key holds no `.`.
///
/// The last `.` is looked for in the whole key, not only in its final path
/// segment, so a key such as `a.b/c` yields the hint `b/c`.  The hint is
/// only ever used to suffix a scratch-file name.
pub open spec fn extension_of(key: Seq<char>) -> Option<Seq<char>> {
    let j = last_at(key, '.');
    if j == -1 {
        None
    } else {
        Some(key.skip(j + 1))
    }
}

/// What resolution returns, for every input string.
pub open spec fn spec_resolve(s: Seq<char>) -> Result<ReferenceModel, ParseError> {
    if !has_scheme(s) {
        Err(ParseError::MissingScheme)
    } else if container_of(s).len() == 0 {
        Err(ParseError::MissingContainer)
    } else {
        Ok(
            ReferenceModel {
                container: container_of(s),
                key: key_of(s),
                extension: extension_of(key_of(s)),
            },
        )
    }
}

/// `first_at` names the first occurrence: everything before it differs
/// from `c`, and the named position (when inside the sequence) holds `c`.
pub proof fn lemma_first_at(s: Seq<char>, c: char)
    ensures
        0 <= first_at(s, c) <= s.len(),
        first_at(s, c) < s.len() ==> s[first_at(s, c)] == c,
        forall|j: int| 0 <= j < first_at(s, c) ==> s[j] != c,
    decreases s.len(),
{
    if s.len() > 0 && s[0] != c {
        lemma_first_at(s.skip(1), c);
        assert forall|j: int| 0 <= j < first_at(s, c) implies s[j] != c by {
            if j > 0 {
                assert(s.skip(1)[j - 1] == s[j]);
            }
        }
    }
}

/// `last_at` names the last occurrence: everything after it differs from
/// `c`, and the named position (when not `-1`) holds `c`.
pub proof fn lemma_last_at(s: Seq<char>, c: char)
    ensures
        -1 <= last_at(s, c) < s.len(),
        last_at(s, c) >= 0 ==> s[last_at(s, c)] == c,
        forall|j: int| last_at(s, c) < j < s.len() ==> s[j] != c,
    decreases s.len(),
{
    if s.len() > 0 && s[s.len() - 1] != c {
        lemma_last_at(s.take(s.len() - 1), c);
        assert forall|j: int| last_at(s, c) < j < s.len() implies s[j] != c by {
            if j < s.len() - 1 {
                assert(s.take(s.len() - 1)[j] == s[j]);
            }
        }
    }
}

/// An input that does not begin with the scheme prefix never resolves,
/// whatever else it holds: the result is always the missing-scheme error.
pub proof fn lemma_missing_scheme(s: Seq<char>)
    requires
        !has_scheme(s),
    ensures
        spec_resolve(s) == Err::<ReferenceModel, ParseError>(ParseError::MissingScheme),
{
}

/// Appending characters among which `c` does not occur leaves the last
/// occurrence of `c` where it was.
proof fn lemma_last_at_append_miss(x: Seq<char>, y: Seq<char>, c: char)
    requires
        !y.contains(c),
    ensures
        last_at(x + y, c) == last_at(x, c),
    decreases y.len(),
{
    if y.len() == 0 {
        assert(x + y =~= x);
    } else {
        let xy = x + y;
        assert(xy[xy.len() - 1] == y[y.len() - 1]);
        if y[y.len() - 1] == c {
            assert(y.contains(c));
        }
        assert(xy.take(xy.len() - 1) =~= x + y.take(y.len() - 1));
        assert(!y.take(y.len() - 1).contains(c)) by {
            if y.take(y.len() - 1).contains(c) {
                let j = choose|j: int|
                    0 <= j < y.take(y.len() - 1).len() && #[trigger] y.take(y.len() - 1)[j] == c;
                assert(y[j] == c);
                assert(y.contains(c));
            }
        }
        lemma_last_at_append_miss(x, y.take(y.len() - 1), c);
    }
}

/// A key of the form `a` + `.` + `ext`, where `ext` holds no further `.`,
/// carries exactly `ext` as its extension hint.
pub proof fn lemma_extension_after_last_dot(a: Seq<char>, ext: Seq<char>)
    requires
        !ext.contains('.'),
    ensures
        extension_of(a + seq!['.'] + ext) == Some(ext),
{
    let key = a + seq!['.'] + ext;
    lemma_last_at_append_miss(a + seq!['.'], ext, '.');
    let ad = a + seq!['.'];
    assert(ad[ad.len() - 1] == '.');
    assert(last_at(ad, '.') == a.len());
    assert(last_at(key, '.') == a.len());
    assert(key.skip(a.len() as int + 1) =~= ext);
}

/// A well-formed address — the scheme prefix, a non-empty container
/// without `/`, a `/`, then the key — resolves to exactly that container
/// and key, with the extension hint read from the key.
pub proof fn lemma_resolve_well_formed(c: Seq<char>, k: Seq<char>)
    requires
        c.len() > 0,
        !c.contains('/'),
    ensures
        (spec_resolve(scheme_prefix() + c + seq!['/'] + k) matches Ok(model)
            && model.container == c
            && model.key == k
            && model.extension == extension_of(k)),
{
    let s = scheme_prefix() + c + seq!['/'] + k;
    assert(s.take(5) =~= scheme_prefix());
    let rest = s.skip(5);
    assert(rest =~= c + seq!['/'] + k);
    lemma_first_at(rest, '/');
    let f = first_at(rest, '/');
    assert(rest[c.len() as int] == '/');
    assert forall|j: int| 0 <= j < c.len() implies rest[j] != '/' by {
        assert(rest[j] == c[j]);
        if c[j] == '/' {
            assert(c.contains('/'));
        }
    }
    assert(f == c.len());
    assert(container_of(s) =~= c);
    assert(key_of(s) =~= k);
    assert(extension_of(key_of(s)) == extension_of(k));
}

/// An address `s3://c/a/b.ext` — a container, two path segments and a
/// final extension — resolves to container `c`, key `a/b.ext` and hint
/// `ext`.
pub proof fn lemma_resolve_full_form(c: Seq<char>, a: Seq<char>, b: Seq<char>, ext: Seq<char>)
    requires
        c.len() > 0,
        !c.contains('/'),
        !ext.contains('.'),
    ensures
        (spec_resolve(scheme_prefix() + c + seq!['/'] + (a + seq!['/'] + b + seq!['.'] + ext))
            matches Ok(model)
            && model.container == c
            && model.key == a + seq!['/'] + b + seq!['.'] + ext
            && model.extension == Some(ext)),
{
    let k = a + seq!['/'] + b + seq!['.'] + ext;
    lemma_resolve_well_formed(c, k);
    assert(k =~= (a + seq!['/'] + b) + seq!['.'] + ext);
    lemma_extension_after_last_dot(a + seq!['/'] + b, ext);
}

impl RemoteReference {
    /// Parse a raw address into a structured reference.
    ///
    /// Fails with `MissingScheme` when the input does not begin with
    /// `s3://`, and with `MissingContainer` when the container segment is
    /// empty; otherwise returns the reference whose model `spec_resolve`
    /// names.
    pub fn resolve(raw: &str) -> (r: Result<RemoteReference, ParseError>)
        ensures
            match r {
                Ok(reference) => spec_resolve(raw@) == Ok::<ReferenceModel, ParseError>(reference@),
                Err(e) => spec_resolve(raw@) == Err::<ReferenceModel, ParseError>(e),
            },
    {
        let n = raw.unicode_len();
        if n < 5 || raw.get_char(0) != 's' || raw.get_char(1) != '3' || raw.get_char(2) != ':'
            || raw.get_char(3) != '/' || raw.get_char(4) != '/' {
            proof {
                if has_scheme(raw@) {
                    assert(raw@.take(5)[0] == raw@[0]);
                    assert(raw@.take(5)[1] == raw@[1]);
                    assert(raw@.take(5)[2] == raw@[2]);
                    assert(raw@.take(5)[3] == raw@[3]);
                    assert(raw@.take(5)[4] == raw@[4]);
                }
            }
            return Err(ParseError::MissingScheme);
        }
        proof {
            assert(raw@.take(5) =~= scheme_prefix());
        }
        let ghost rest = raw@.skip(5);

        // Find the first `/` after the prefix; it ends the container segment.
        let mut i: usize = 5;
        while i < n && raw.get_char(i) != '/'
            invariant
                5 <= i <= n,
                n == raw@.len(),
                forall|j: int| 5 <= j < i ==> raw@[j] != '/',
            decreases n - i,
        {
            i += 1;
        }
        proof {
            lemma_first_at(rest, '/');
            assert forall|j: int| 0 <= j < i - 5 implies rest[j] != '/' by {
                assert(rest[j] == raw@[j + 5]);
            }
            if i < n {
                assert(rest[i - 5] == raw@[i as int]);
            }
            assert(first_at(rest, '/') == i - 5);
        }

        if i == 5 {
            proof {
                assert(container_of(raw@).len() == 0);
            }
            return Err(ParseError::MissingContainer);
        }

        let container = String::from_str(raw.substring_char(5, i));
        proof {
            assert(container@ =~= container_of(raw@));
        }

        let key: String = if i < n {
            String::from_str(raw.substring_char(i + 1, n))
        } else {
            String::new()
        };
        proof {
            assert(key@ =~= key_of(raw@));
        }

        // Find the last `.` anywhere in the key; what follows it is the
        // extension hint.
        let klen = key.as_str().unicode_len();
        let mut j: usize = klen;
        while j > 0 && key.as_str().get_char(j - 1) != '.'
            invariant
                j <= klen,
                klen == key@.len(),
                forall|t: int| j <= t < klen ==> key@[t] != '.',
            decreases j,
        {
            j -= 1;
        }
        proof {
            lemma_last_at(key@, '.');
            assert(last_at(key@, '.') == if j == 0 { -1int } else { j - 1 });
        }

        let extension: Option<String> = if j == 0 {
            None
        } else {
            Some(String::from_str(key.as_str().substring_char(j, klen)))
        };
        proof {
            match &extension {
                Some(e) => {
                    assert(e@ =~= key_of(raw@).skip(j as int));
                    assert(extension_of(key_of(raw@)) == Some(e@));
                },
                None => {
                    assert(extension_of(key_of(raw@)) is None);
                },
            }
        }

        let reference = RemoteReference { container, key, extension };
        Ok(reference)
    }
}

} // verus!
