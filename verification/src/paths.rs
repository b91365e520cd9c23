use vstd::prelude::*;

verus! {

/// The characters accepted in an inferred extension: ASCII letters and
/// digits. A client-supplied extension holding anything else is not
/// trusted to name a file and falls back to the default.
pub open spec fn is_extension_char(c: char) -> bool {
    ||| ('a' as u32) <= (c as u32) && (c as u32) <= ('z' as u32)
    ||| ('A' as u32) <= (c as u32) && (c as u32) <= ('Z' as u32)
    ||| ('0' as u32) <= (c as u32) && (c as u32) <= ('9' as u32)
}

/// The position of the last '.' in a name, if any.
pub open spec fn last_dot(s: Seq<char>) -> Option<int>
    decreases s.len(),
{
    if s.len() == 0 {
        None
    } else if s[s.len() - 1] == '.' {
        Some(s.len() - 1)
    } else {
        last_dot(s.drop_last())
    }
}

/// The default output extension, used when none can be inferred.
pub open spec fn spec_default_extension() -> Seq<char> {
    "jpg"@
}

/// The output extension inferred from an uploaded file's name: the part
/// after the last '.', provided that dot is neither the first nor the
/// last character and the part is ASCII letters and digits alone;
/// otherwise the default.
pub open spec fn spec_extension(name: Seq<char>) -> Seq<char> {
    match last_dot(name) {
        Some(d) => if 0 < d && d + 1 < name.len() && (forall|i: int|
            d < i < name.len() ==> is_extension_char(#[trigger] name[i])) {
            name.subrange(d + 1, name.len() as int)
        } else {
            spec_default_extension()
        },
        None => spec_default_extension(),
    }
}

/// Infers the output extension from an uploaded file's name.
pub fn infer_extension(name: &str) -> (r: String)
    ensures
        r@ == spec_extension(name@),
{
    let n = name.unicode_len();
    proof {
        assert(name@.take(n as int) =~= name@);
    }
    let mut i: usize = n;
    while i > 0
        invariant
            i <= n,
            n == name@.len(),
            last_dot(name@) == last_dot(name@.take(i as int)),
        decreases i,
    {
        let c = name.get_char(i - 1);
        if c == '.' {
            proof {
                assert(name@.take(i as int).last() == '.');
            }
            return extension_after_dot(name, i - 1, n);
        }
        proof {
            assert(name@.take(i as int).drop_last() =~= name@.take(i as int - 1));
        }
        i -= 1;
    }
    proof {
        assert(name@.take(0) =~= Seq::<char>::empty());
    }
    "jpg".to_owned()
}

/// The part of `infer_extension` that runs once the last dot is found:
/// validates the dot's position and the characters after it, and hands
/// back either that part or the default.
fn extension_after_dot(name: &str, d: usize, n: usize) -> (r: String)
    requires
        d < n,
        n == name@.len(),
        last_dot(name@) == Some(d as int),
    ensures
        r@ == spec_extension(name@),
{
    if d == 0 || d + 1 == n {
        return "jpg".to_owned();
    }
    let mut j: usize = d + 1;
    while j < n
        invariant
            d + 1 <= j <= n,
            n == name@.len(),
            0 < d,
            d + 1 < n,
            last_dot(name@) == Some(d as int),
            forall|t: int| d < t < j ==> is_extension_char(#[trigger] name@[t]),
        decreases n - j,
    {
        let c = name.get_char(j);
        let ok = (('a' as u32) <= (c as u32) && (c as u32) <= ('z' as u32)) || (('A' as u32) <= (c
            as u32) && (c as u32) <= ('Z' as u32)) || (('0' as u32) <= (c as u32) && (c as u32)
            <= ('9' as u32));
        if !ok {
            proof {
                assert(!is_extension_char(name@[j as int]));
            }
            return "jpg".to_owned();
        }
        j += 1;
    }
    let sub = name.substring_char(d + 1, n);
    sub.to_owned()
}

/// Whatever name a client supplies, the inferred extension is sane: it
/// is never empty and holds ASCII letters and digits alone — no
/// separators, no dots, no quotes — so client input never reaches a
/// derived path or a response body unfiltered.
pub proof fn lemma_extension_is_sanitized(name: Seq<char>)
    ensures
        spec_extension(name).len() > 0,
        forall|i: int|
            0 <= i < spec_extension(name).len() ==> is_extension_char(
                #[trigger] spec_extension(name)[i],
            ),
{
    reveal_strlit("jpg");
    let e = spec_extension(name);
    if e == spec_default_extension() {
        assert(e.len() == 3);
        assert(is_extension_char(e[0]));
        assert(is_extension_char(e[1]));
        assert(is_extension_char(e[2]));
    }
}

/// Where the upload for a job is stored: inside the cache directory,
/// keyed by the generated job identity — never by the client-supplied
/// file name — so that no two jobs share a path.
pub open spec fn spec_input_path(cache_dir: Seq<char>, id: Seq<char>, ext: Seq<char>) -> Seq<char> {
    cache_dir + "/"@ + id + "-in."@ + ext
}

/// Where the external tool is told to write its output artifact: inside
/// the cache directory, keyed by the job identity plus the inferred
/// extension.
pub open spec fn spec_output_path(cache_dir: Seq<char>, id: Seq<char>, ext: Seq<char>) -> Seq<
    char,
> {
    cache_dir + "/"@ + id + "."@ + ext
}

/// Builds the stored-upload path for a job.
pub fn input_path(cache_dir: &str, id: &str, ext: &str) -> (r: String)
    ensures
        r@ == spec_input_path(cache_dir@, id@, ext@),
{
    let mut out = cache_dir.to_owned();
    out.append("/");
    out.append(id);
    out.append("-in.");
    out.append(ext);
    out
}

/// Builds the output-artifact path for a job.
pub fn output_path(cache_dir: &str, id: &str, ext: &str) -> (r: String)
    ensures
        r@ == spec_output_path(cache_dir@, id@, ext@),
{
    let mut out = cache_dir.to_owned();
    out.append("/");
    out.append(id);
    out.append(".");
    out.append(ext);
    out
}

/// Separate identities imply separate artifact paths: when two job
/// identities differ — and a generated identity never contains a dot —
/// the derived output paths differ too, whatever extensions were
/// inferred for the two jobs. No two jobs are ever told to write the
/// same file, so jobs need no file-level locking against each other.
pub proof fn lemma_distinct_ids_distinct_output_paths(
    cache_dir: Seq<char>,
    id1: Seq<char>,
    ext1: Seq<char>,
    id2: Seq<char>,
    ext2: Seq<char>,
)
    requires
        id1 != id2,
        forall|i: int| 0 <= i < id1.len() ==> id1[i] != '.',
        forall|i: int| 0 <= i < id2.len() ==> id2[i] != '.',
    ensures
        spec_output_path(cache_dir, id1, ext1) != spec_output_path(cache_dir, id2, ext2),
{
    reveal_strlit("/");
    reveal_strlit(".");
    let sep = "/"@;
    let dot = "."@;
    let head = cache_dir + sep;
    let b = head.len() as int;
    let p1 = spec_output_path(cache_dir, id1, ext1);
    let p2 = spec_output_path(cache_dir, id2, ext2);
    let n1 = id1.len() as int;
    let n2 = id2.len() as int;
    if p1 == p2 {
        assert forall|j: int| 0 <= j < n1 implies p1[b + j] == id1[j] by {
            assert(p1[b + j] == ((head + id1) + dot)[b + j]);
            assert(((head + id1) + dot)[b + j] == (head + id1)[b + j]);
            assert((head + id1)[b + j] == id1[j]);
        }
        assert forall|j: int| 0 <= j < n2 implies p2[b + j] == id2[j] by {
            assert(p2[b + j] == ((head + id2) + dot)[b + j]);
            assert(((head + id2) + dot)[b + j] == (head + id2)[b + j]);
            assert((head + id2)[b + j] == id2[j]);
        }
        assert(p1[b + n1] == '.') by {
            assert(p1[b + n1] == ((head + id1) + dot)[b + n1]);
            assert(((head + id1) + dot)[b + n1] == dot[0]);
        }
        assert(p2[b + n2] == '.') by {
            assert(p2[b + n2] == ((head + id2) + dot)[b + n2]);
            assert(((head + id2) + dot)[b + n2] == dot[0]);
        }
        if n1 < n2 {
            assert(p2[b + n1] == id2[n1]);
            assert(false);
        } else if n2 < n1 {
            assert(p1[b + n2] == id1[n2]);
            assert(false);
        } else {
            assert forall|j: int| 0 <= j < n1 implies id1[j] == id2[j] by {
                assert(p1[b + j] == id1[j]);
                assert(p2[b + j] == id2[j]);
            }
            assert(id1 =~= id2);
            assert(false);
        }
    }
}

/// The fixed positional argument list handed to the external tool:
/// input, output, the fixed GPU index 0 and the fixed scale factor 2.
pub fn command_args(input: &str, output: &str) -> (r: Vec<String>)
    ensures
        r@.len() == 8,
        r@[0]@ == "-i"@,
        r@[1]@ == input@,
        r@[2]@ == "-o"@,
        r@[3]@ == output@,
        r@[4]@ == "-g"@,
        r@[5]@ == "0"@,
        r@[6]@ == "-s"@,
        r@[7]@ == "2"@,
{
    let mut v: Vec<String> = Vec::new();
    v.push("-i".to_owned());
    v.push(input.to_owned());
    v.push("-o".to_owned());
    v.push(output.to_owned());
    v.push("-g".to_owned());
    v.push("0".to_owned());
    v.push("-s".to_owned());
    v.push("2".to_owned());
    v
}

} // verus!
