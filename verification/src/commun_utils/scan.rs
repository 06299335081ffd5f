use vstd::prelude::*;
use vstd::string::*;
use crate::commun_utils::fs_strategies::{AsPath, FileReader, buffers_view, strategy_buffers};
use crate::third_party::{
    CompiledBytesRegex, CompiledBytesRegexSet, bytes_regex_captures_len, bytes_regex_compiles,
    bytes_regex_finds, bytes_regex_set_compiles, bytes_regex_set_matches, compile_bytes_regex,
    compile_bytes_regex_set, strings_view,
};

verus! {

/// A file whose score of distinct warnings exceeds this stops the program.
pub const CAP_ERROR: usize = 10;

/// `ws` joined by `sep`.
pub open spec fn join_spec(ws: Seq<Seq<char>>, sep: Seq<char>) -> Seq<char>
    decreases ws.len(),
{
    if ws.len() == 0 {
        Seq::empty()
    } else if ws.len() == 1 {
        ws[0]
    } else {
        join_spec(ws.drop_last(), sep) + sep + ws.last()
    }
}

/// Joins the texts with `sep` between them.
pub fn join_with(ws: &Vec<String>, sep: &str) -> (r: String)
    ensures
        r@ == join_spec(strings_view(ws@), sep@),
{
    let mut r = String::new();
    let mut i: usize = 0;
    while i < ws.len()
        invariant
            i <= ws@.len(),
            r@ == join_spec(strings_view(ws@.subrange(0, i as int)), sep@),
        decreases ws@.len() - i,
    {
        let ghost prev = strings_view(ws@.subrange(0, i as int));
        let ghost next = strings_view(ws@.subrange(0, i + 1));
        assert(next.drop_last() == prev);
        assert(next.last() == ws@[i as int]@);
        if i != 0 {
            r.append(sep);
        } else {
            assert(next.len() == 1);
        }
        r.append(ws[i].as_str());
        i += 1;
    }
    assert(ws@.subrange(0, ws@.len() as int) == ws@);
    r
}

/// A named warning and the pattern that raises it.
pub struct ScanWarnByte {
    warn_name: String,
    regex: CompiledBytesRegex,
}

impl ScanWarnByte {
    pub closed spec fn warn(&self) -> Seq<char> {
        self.warn_name@
    }

    pub closed spec fn pattern(&self) -> Seq<char> {
        self.regex.pattern()
    }

    pub fn get_warn(&self) -> (r: &str)
        ensures
            r@ == self.warn(),
    {
        self.warn_name.as_str()
    }

    pub fn get_byte_regex(&self) -> (r: &CompiledBytesRegex)
        ensures
            r.pattern() == self.pattern(),
    {
        &self.regex
    }
}

/// Whether pattern `i` matches somewhere in one of the buffers.
pub open spec fn matched_in(patterns: Seq<Seq<char>>, bufs: Seq<Seq<u8>>, i: int) -> bool {
    exists|b: int| 0 <= b < bufs.len() && #[trigger] bytes_regex_finds(patterns[i], bufs[b])
}

/// What scanning a file found: nothing, or warnings to print.
#[derive(Debug)]
pub enum ScanVerdict {
    Clean,
    Warning { indices: Vec<usize>, warns: Vec<String>, joined: String },
}

/// The message that stops the program on a suspicious file.
pub open spec fn blocked_message(url: Seq<char>, joined: Seq<char>) -> Seq<char> {
    "A suspicious file "@ + url + " prevents the program from functioning(\""@ + joined + "\")"@
}

/// Named patterns to look for in the bytes of files.
pub struct ScanBytesSubject {
    regex_set: CompiledBytesRegexSet,
    regexes: Vec<ScanWarnByte>,
}

impl ScanBytesSubject {
    #[verifier::type_invariant]
    spec fn wf(self) -> bool {
        &&& self.regexes@.len() == self.regex_set.patterns().len()
        &&& forall|i: int| 0 <= i < self.regexes@.len() ==> #[trigger] self.regexes@[i].pattern()
            == self.regex_set.patterns()[i]
    }

    pub closed spec fn patterns(&self) -> Seq<Seq<char>> {
        self.regex_set.patterns()
    }

    pub closed spec fn warns(&self) -> Seq<Seq<char>> {
        self.regexes@.map_values(|w: ScanWarnByte| w.warn())
    }

    /// Compiles the patterns; `warn[i]` names what `regex_name[i]` finds.
    /// Fails when the patterns do not compile together or one of them does
    /// not compile alone.
    pub fn new(warn: &Vec<String>, regex_name: &Vec<String>) -> (r: Result<Self, regex::Error>)
        requires
            warn@.len() == regex_name@.len(),
        ensures
            r is Ok <==> (bytes_regex_set_compiles(strings_view(regex_name@))
                && forall|i: int| 0 <= i < regex_name@.len() ==> #[trigger] bytes_regex_compiles(regex_name@[i]@)),
            r matches Ok(s) ==> s.patterns() == strings_view(regex_name@) && s.warns() == strings_view(warn@),
    {
        let regex_set = compile_bytes_regex_set(regex_name)?;
        let mut regexes: Vec<ScanWarnByte> = Vec::new();
        let mut key: usize = 0;
        while key < warn.len()
            invariant
                warn@.len() == regex_name@.len(),
                key <= warn@.len(),
                regex_set.patterns() == strings_view(regex_name@),
                regexes@.len() == key,
                forall|i: int| 0 <= i < key ==> #[trigger] regexes@[i].pattern() == regex_name@[i]@,
                forall|i: int| 0 <= i < key ==> #[trigger] regexes@[i].warn() == warn@[i]@,
                forall|i: int| 0 <= i < key ==> #[trigger] bytes_regex_compiles(regex_name@[i]@),
            decreases warn@.len() - key,
        {
            let regex = compile_bytes_regex(regex_name[key].as_str())?;
            regexes.push(ScanWarnByte { warn_name: warn[key].clone(), regex });
            key += 1;
        }
        let s = ScanBytesSubject { regex_set, regexes };
        assert(s.warns() =~= strings_view(warn@));
        Ok(s)
    }

    /// Reads a file into buffers as its strategy does and finds the
    /// patterns that match in some buffer, each once, with the score the
    /// file gets: one per pattern found.
    pub fn find_matches<P: AsPath>(&self, file: &FileReader<P>, content: &Vec<u8>) -> (r: (Vec<usize>, usize))
        ensures
            found_exactly(r.0@, self.patterns(), strategy_buffers(file.strategy(), content@)),
            r.0@.len() == matched_count(self.patterns(), strategy_buffers(file.strategy(), content@)),
            r.1 == r.0@.len(),
    {
        proof { use_type_invariant(self); }
        let mut buffers: Vec<Vec<u8>> = Vec::new();
        file.flush_data(content, &mut buffers);
        let ghost bufs = buffers_view(buffers@);
        assert(bufs == strategy_buffers(file.strategy(), content@));
        let ghost pats = self.patterns();
        let n = self.regexes.len();
        let mut seen: Vec<usize> = Vec::new();
        let mut warn_score: usize = 0;
        let mut b: usize = 0;
        while b < buffers.len()
            invariant
                bufs == buffers_view(buffers@),
                pats == self.patterns(),
                n == pats.len(),
                self.regexes@.len() == n,
                forall|i: int| 0 <= i < n ==> #[trigger] self.regexes@[i].pattern() == pats[i],
                b <= buffers@.len(),
                seen@.no_duplicates(),
                warn_score == seen@.len(),
                forall|k: int| 0 <= k < seen@.len() ==> #[trigger] seen@[k] < n,
                forall|i: int| 0 <= i < n ==> (seen@.contains(i as usize) <==> #[trigger] matched_in(pats, bufs.subrange(0, b as int), i)),
            decreases buffers@.len() - b,
        {
            let matches = bytes_regex_set_matches(&self.regex_set, buffers[b].as_slice());
            let ghost data = bufs[b as int];
            assert(buffers[b as int]@ == data);
            let mut j: usize = 0;
            while j < matches.len()
                invariant
                    bufs == buffers_view(buffers@),
                    pats == self.patterns(),
                    n == pats.len(),
                    self.regexes@.len() == n,
                    forall|i: int| 0 <= i < n ==> #[trigger] self.regexes@[i].pattern() == pats[i],
                    b < buffers@.len(),
                    data == bufs[b as int],
                    reports_matches_data(matches@, pats, data),
                    j <= matches@.len(),
                    seen@.no_duplicates(),
                    warn_score == seen@.len(),
                    forall|k: int| 0 <= k < seen@.len() ==> #[trigger] seen@[k] < n,
                    forall|i: int| 0 <= i < n ==> (seen@.contains(i as usize) <==> (#[trigger] matched_in(pats, bufs.subrange(0, b as int), i)
                        || matches@.subrange(0, j as int).contains(i as usize))),
                decreases matches@.len() - j,
            {
                let index = matches[j];
                let ghost old_seen = seen@;
                assert(forall|i: int| 0 <= i < n ==> (old_seen.contains(i as usize) <==> (#[trigger] matched_in(pats, bufs.subrange(0, b as int), i)
                        || matches@.subrange(0, j as int).contains(i as usize))));
                let already = contains_index(&seen, index);
                if !already {
                    let found = bytes_regex_captures_len(self.regexes[index].get_byte_regex(), buffers[b].as_slice());
                    assert(matches@.contains(index));
                    assert(bytes_regex_finds(pats[index as int], data));
                    assert(found == 1);
                    seen.push(index);
                    let count = seen.len();
                    assert(warn_score + found == count);
                    warn_score = warn_score + found;
                }
                let ghost old_j = j as int;
                j += 1;
                proof {
                    assert(matches@.subrange(0, j as int) == matches@.subrange(0, old_j).push(index));
                    assert forall|i: int| 0 <= i < n implies (seen@.contains(i as usize) <==> (#[trigger] matched_in(pats, bufs.subrange(0, b as int), i)
                        || matches@.subrange(0, j as int).contains(i as usize))) by {
                        lemma_push_contains(matches@.subrange(0, old_j), index, i as usize);
                        assert(old_seen.contains(i as usize) <==> (matched_in(pats, bufs.subrange(0, b as int), i)
                            || matches@.subrange(0, old_j).contains(i as usize)));
                        if !already {
                            assert(seen@ == old_seen.push(index));
                            lemma_push_contains(old_seen, index, i as usize);
                        } else {
                            assert(seen@ == old_seen);
                            assert(old_seen.contains(index));
                        }
                    }
                }
            }
            proof {
                assert(matches@.subrange(0, matches@.len() as int) == matches@);
                let pre = bufs.subrange(0, b as int);
                let bs = bufs.subrange(0, b + 1);
                assert forall|i: int| 0 <= i < n implies (seen@.contains(i as usize) <==> #[trigger] matched_in(pats, bs, i)) by {
                    if matched_in(pats, pre, i) {
                        let w = choose|w: int| 0 <= w < pre.len() && #[trigger] bytes_regex_finds(pats[i], pre[w]);
                        assert(bs[w] == pre[w]);
                        assert(bytes_regex_finds(pats[i], bs[w]));
                    }
                    if matches@.contains(i as usize) {
                        assert(bytes_regex_finds(pats[i], data));
                        assert(bs[b as int] == data);
                        assert(bytes_regex_finds(pats[i], bs[b as int]));
                    }
                    if matched_in(pats, bs, i) {
                        let w = choose|w: int| 0 <= w < bs.len() && #[trigger] bytes_regex_finds(pats[i], bs[w]);
                        if w < b {
                            assert(pre[w] == bs[w]);
                            assert(bytes_regex_finds(pats[i], pre[w]));
                        } else {
                            assert(bs[w] == data);
                            assert(matches@.contains(i as usize));
                        }
                    }
                }
            }
            b += 1;
        }
        assert(bufs.subrange(0, buffers@.len() as int) == bufs);
        assert(bufs.subrange(0, buffers@.len() as int) == bufs);
        proof { lemma_found_count(seen@, pats, bufs); }
        (seen, warn_score)
    }

    /// The names of the warnings of the patterns numbered `indices`.
    fn warn_names(&self, seen: &Vec<usize>) -> (r: Vec<String>)
        requires
            forall|q: int| 0 <= q < seen@.len() ==> #[trigger] seen@[q] < self.patterns().len(),
        ensures
            strings_view(r@) == seen@.map_values(|i: usize| self.warns()[i as int]),
    {
        proof { use_type_invariant(self); }
        let n = self.regexes.len();
        let mut warns: Vec<String> = Vec::new();
        let mut k: usize = 0;
        while k < seen.len()
            invariant
                k <= seen@.len(),
                n == self.regexes@.len(),
                forall|q: int| 0 <= q < seen@.len() ==> #[trigger] seen@[q] < n,
                strings_view(warns@) == seen@.subrange(0, k as int).map_values(|i: usize| self.warns()[i as int]),
            decreases seen@.len() - k,
        {
            let ghost before = strings_view(warns@);
            let w = self.regexes[seen[k]].get_warn().to_owned();
            assert(w@ == self.warns()[seen@[k as int] as int]);
            warns.push(w);
            assert(strings_view(warns@) == before.push(w@));
            assert(seen@.subrange(0, k + 1) == seen@.subrange(0, k as int).push(seen@[k as int]));
            k += 1;
            assert(strings_view(warns@) =~= seen@.subrange(0, k as int).map_values(|i: usize| self.warns()[i as int]));
        }
        assert(seen@.subrange(0, seen@.len() as int) == seen@);
        warns
    }

    /// The patterns found in a file and the message that stops the program
    /// when they are too many.
    pub fn scan_check<P: AsPath>(&self, file: &FileReader<P>, content: &Vec<u8>) -> (r: (Vec<usize>, String))
        ensures
            found_exactly(r.0@, self.patterns(), strategy_buffers(file.strategy(), content@)),
            r.0@.len() == matched_count(self.patterns(), strategy_buffers(file.strategy(), content@)),
            r.1@ == blocked_message(
                file.inner().spec_path(),
                join_spec(r.0@.map_values(|i: usize| self.warns()[i as int]), "\",\""@),
            ),
    {
        let (seen, _score) = self.find_matches(file, content);
        let warns = self.warn_names(&seen);
        let joined = join_with(&warns, "\",\"");
        let mut message = String::from_str("A suspicious file ");
        message.append(file.get_string_lossy_url());
        message.append(" prevents the program from functioning(\"");
        message.append(joined.as_str());
        message.append("\")");
        (seen, message)
    }

    /// Scans the bytes of a file whose found patterns are at most
    /// `CAP_ERROR`: reads it into buffers as its strategy does, then names
    /// the distinct patterns that match in some buffer, each once.
    pub fn scan_data<P: AsPath>(&self, file: &FileReader<P>, content: &Vec<u8>) -> (r: ScanVerdict)
        requires
            matched_count(self.patterns(), strategy_buffers(file.strategy(), content@)) <= CAP_ERROR,
        ensures
            ({
                let bufs = strategy_buffers(file.strategy(), content@);
                match r {
                    ScanVerdict::Clean => forall|i: int| 0 <= i < self.patterns().len()
                        ==> !#[trigger] matched_in(self.patterns(), bufs, i),
                    ScanVerdict::Warning { indices, warns, joined } => {
                        &&& found_exactly(indices@, self.patterns(), bufs)
                        &&& 0 < indices@.len() <= CAP_ERROR
                        &&& strings_view(warns@) == indices@.map_values(|i: usize| self.warns()[i as int])
                        &&& joined@ == join_spec(strings_view(warns@), "\",\""@)
                    },
                }
            }),
    {
        let (seen, warn_score) = self.find_matches(file, content);
        let ghost bufs = strategy_buffers(file.strategy(), content@);
        let warns = self.warn_names(&seen);
        assert(strings_view(warns@).len() == warns@.len());
        assert(seen@.map_values(|i: usize| self.warns()[i as int]).len() == seen@.len());
        if warns.len() == 0 {
            proof {
                assert forall|i: int| 0 <= i < self.patterns().len() implies !#[trigger] matched_in(self.patterns(), bufs, i) by {
                    if matched_in(self.patterns(), bufs, i) {
                        assert(seen@.contains(i as usize));
                        assert(seen@.len() > 0);
                    }
                }
            }
            ScanVerdict::Clean
        } else {
            let joined = join_with(&warns, "\",\"");
            ScanVerdict::Warning { indices: seen, warns, joined }
        }
    }

    /// Scans a file: the message that stops the program when more than
    /// `CAP_ERROR` distinct patterns match in its buffers, else the scan's
    /// verdict.
    pub fn scan_file<P: AsPath>(&self, file: &FileReader<P>, content: &Vec<u8>) -> (r: Result<ScanVerdict, String>)
        ensures
            ({
                let bufs = strategy_buffers(file.strategy(), content@);
                let count = matched_count(self.patterns(), bufs);
                &&& count > CAP_ERROR ==> (r matches Err(message) && exists|indices: Seq<usize>|
                    found_exactly(indices, self.patterns(), bufs) && #[trigger] message@ == blocked_message(
                        file.inner().spec_path(),
                        join_spec(indices.map_values(|i: usize| self.warns()[i as int]), "\",\""@),
                    ))
                &&& count <= CAP_ERROR ==> (r matches Ok(v) && match v {
                    ScanVerdict::Clean => forall|i: int| 0 <= i < self.patterns().len()
                        ==> !#[trigger] matched_in(self.patterns(), bufs, i),
                    ScanVerdict::Warning { indices, warns, joined } => {
                        &&& found_exactly(indices@, self.patterns(), bufs)
                        &&& 0 < indices@.len() <= CAP_ERROR
                        &&& strings_view(warns@) == indices@.map_values(|i: usize| self.warns()[i as int])
                        &&& joined@ == join_spec(strings_view(warns@), "\",\""@)
                    },
                })
            }),
    {
        let (seen, message) = self.scan_check(file, content);
        if CAP_ERROR < seen.len() {
            return Err(message);
        }
        Ok(self.scan_data(file, content))
    }
}

/// The numbers of the patterns that match in some buffer.
pub open spec fn matched_set(patterns: Seq<Seq<char>>, bufs: Seq<Seq<u8>>) -> Set<usize> {
    Set::new(|i: usize| (i as int) < patterns.len() && matched_in(patterns, bufs, i as int))
}

/// How many patterns match in some buffer.
pub open spec fn matched_count(patterns: Seq<Seq<char>>, bufs: Seq<Seq<u8>>) -> nat {
    matched_set(patterns, bufs).len()
}

/// A list that names each matching pattern once is as long as there are
/// matching patterns.
pub proof fn lemma_found_count(indices: Seq<usize>, patterns: Seq<Seq<char>>, bufs: Seq<Seq<u8>>)
    requires
        found_exactly(indices, patterns, bufs),
    ensures
        indices.len() == matched_count(patterns, bufs),
{
    assert(indices.to_set() =~= matched_set(patterns, bufs)) by {
        assert forall|i: usize| indices.to_set().contains(i) implies matched_set(patterns, bufs).contains(i) by {
            let k = choose|k: int| 0 <= k < indices.len() && indices[k] == i;
            assert(indices[k] < patterns.len());
        }
    }
    indices.unique_seq_to_set();
}

/// The patterns `indices` names are exactly those that match in some buffer,
/// each named once.
pub open spec fn found_exactly(indices: Seq<usize>, patterns: Seq<Seq<char>>, bufs: Seq<Seq<u8>>) -> bool {
    &&& indices.no_duplicates()
    &&& forall|k: int| 0 <= k < indices.len() ==> #[trigger] indices[k] < patterns.len()
    &&& forall|i: int| 0 <= i < patterns.len() ==> (indices.contains(i as usize) <==> #[trigger] matched_in(patterns, bufs, i))
}

pub open spec fn reports_matches_data(r: Seq<usize>, pats: Seq<Seq<char>>, data: Seq<u8>) -> bool {
    &&& forall|i: int| 0 <= i < r.len() ==> #[trigger] r[i] < pats.len()
    &&& forall|k: int| 0 <= k < pats.len() ==> (r.contains(k as usize) <==> #[trigger] bytes_regex_finds(pats[k], data))
}

pub proof fn lemma_push_contains<A>(s: Seq<A>, x: A, y: A)
    ensures
        s.push(x).contains(y) <==> (s.contains(y) || x == y),
{
    if s.contains(y) {
        let k = choose|k: int| 0 <= k < s.len() && s[k] == y;
        assert(s.push(x)[k] == y);
    }
    if x == y {
        assert(s.push(x)[s.len() as int] == y);
    }
    if s.push(x).contains(y) {
        let k = choose|k: int| 0 <= k < s.push(x).len() && s.push(x)[k] == y;
        if k < s.len() {
            assert(s[k] == y);
        }
    }
}

fn contains_index(v: &Vec<usize>, x: usize) -> (r: bool)
    ensures
        r == v@.contains(x),
{
    let mut i: usize = 0;
    while i < v.len()
        invariant
            i <= v@.len(),
            forall|k: int| 0 <= k < i ==> v@[k] != x,
        decreases v@.len() - i,
    {
        if v[i] == x {
            return true;
        }
        i += 1;
    }
    false
}

/// A set of named patterns that scans files.
pub trait FileScanner: Sized {
    spec fn spec_warns() -> Seq<Seq<char>>;

    spec fn spec_patterns() -> Seq<Seq<char>>;

    /// The scanner for this set of patterns; fails when they do not compile.
    fn scanner() -> (r: Result<ScanBytesSubject, regex::Error>)
        ensures
            r is Ok <==> (bytes_regex_set_compiles(Self::spec_patterns())
                && forall|i: int| 0 <= i < Self::spec_patterns().len() ==> #[trigger] bytes_regex_compiles(Self::spec_patterns()[i])),
            r matches Ok(s) ==> s.patterns() == Self::spec_patterns() && s.warns() == Self::spec_warns(),
    ;
}

} // verus!
