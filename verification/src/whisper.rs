//! Running whisper.cpp: locating the executable and the model, the command
//! line, and turning its output into a transcript.

use vstd::prelude::*;
use crate::text;
use crate::text::{
    chars_of, decimal, extend_from_range, is_whitespace_char, push_text, string_from_range,
    trim_bounds,
};
use crate::models;
use std::path::PathBuf;
use vstd::string::StrSliceExecFns;

verus! {

/// Where the executable is looked for when it is on no directory of `PATH`.
pub const FALLBACK_WHISPER_PATH: &'static str =
    "d:\\ws\\echo\\whisper.cpp\\build\\bin\\Release\\whisper-cli.exe";

/// Message when no whisper executable can be found.
pub const WHISPER_NOT_FOUND: &'static str =
    "Whisper executable not found. Please install whisper.cpp.";

/// The most threads whisper is given.
pub const MAX_THREADS: usize = 8;

/// Threads whisper is given when the machine's parallelism is unknown.
pub const DEFAULT_THREADS: usize = 4;

#[verifier::external_type_specification]
#[verifier::external_body]
pub struct ExPathBuf(PathBuf);

#[verifier::external_type_specification]
#[verifier::external_body]
pub struct ExWhichError(which::Error);

/// `which::which`: the first executable file named `name` on a directory of
/// `PATH`. What it finds depends on the environment and the disk, so nothing
/// is stated of the result.
#[verifier::external_body]
fn which_binary(name: &str) -> (found: Result<PathBuf, which::Error>) {
    which::which(name)
}

/// The executable names searched for on `PATH`, in order.
pub open spec fn whisper_candidate_names() -> Seq<Seq<char>> {
    seq!["whisper-cli"@, "whisper-cli.exe"@, "whisper"@, "whisper.exe"@, "main"@, "main.exe"@]
}

/// The executable names searched for on `PATH`, in order.
pub fn whisper_candidates() -> (names: Vec<&'static str>)
    ensures
        names@.map_values(|s: &str| s@) == whisper_candidate_names(),
{
    let names: Vec<&'static str> = vec![
        "whisper-cli",
        "whisper-cli.exe",
        "whisper",
        "whisper.exe",
        "main",
        "main.exe",
    ];
    assert(names@.map_values(|s: &str| s@) =~= whisper_candidate_names());
    names
}

/// The first path that a lookup found, in the order of the lookups.
pub open spec fn first_found_of(lookups: Seq<Option<PathBuf>>) -> Option<PathBuf>
    decreases lookups.len(),
{
    if lookups.len() == 0 {
        None
    } else {
        match lookups[0] {
            Some(p) => Some(p),
            None => first_found_of(lookups.drop_first()),
        }
    }
}

/// Lookups that found nothing do not change which path is found first.
pub proof fn lemma_first_found_skip(lookups: Seq<Option<PathBuf>>, i: int)
    requires
        0 <= i <= lookups.len(),
        forall|j: int| 0 <= j < i ==> (#[trigger] lookups[j]) is None,
    ensures
        first_found_of(lookups) == first_found_of(lookups.skip(i)),
    decreases i,
{
    if i > 0 {
        assert(lookups[0] is None);
        let rest = lookups.drop_first();
        assert forall|j: int| 0 <= j < i - 1 implies (#[trigger] rest[j]) is None by {
            assert(rest[j] == lookups[j + 1]);
        }
        lemma_first_found_skip(rest, i - 1);
        assert(rest.skip(i - 1) =~= lookups.skip(i));
    } else {
        assert(lookups.skip(0) =~= lookups);
    }
}

/// Where the whisper executable was found.
pub enum WhisperLocation {
    /// At this path, found on `PATH`.
    OnPath(PathBuf),
    /// At `FALLBACK_WHISPER_PATH`.
    Fallback,
}

/// The executable chosen from the `PATH` lookups, in their order: the first
/// path found, else the fallback location when a file exists there, else the
/// not-found message.
pub open spec fn chosen_location(
    location: Result<WhisperLocation, String>,
    lookups: Seq<Option<PathBuf>>,
    fallback_exists: bool,
) -> bool {
    match first_found_of(lookups) {
        Some(p) => location == Ok::<WhisperLocation, String>(WhisperLocation::OnPath(p)),
        None => if fallback_exists {
            location == Ok::<WhisperLocation, String>(WhisperLocation::Fallback)
        } else {
            location matches Err(e) && e@ == WHISPER_NOT_FOUND@
        },
    }
}

/// A search for the whisper executable.
pub struct WhisperSearch {
    /// The names handed to `which`, in the order they were looked up.
    pub names: Vec<&'static str>,
    /// What each of those lookups found.
    pub lookups: Ghost<Seq<Option<PathBuf>>>,
    /// The executable chosen.
    pub location: Result<WhisperLocation, String>,
}

/// Finds the whisper executable: looks up each of `whisper_candidates()` on
/// `PATH` in turn and stops at the first one found; when none is, the
/// fallback location counts if `fallback_exists` says that a file is there.
pub fn find_whisper_path(fallback_exists: bool) -> (search: WhisperSearch)
    ensures
        1 <= search.lookups@.len() <= whisper_candidate_names().len(),
        search.names@.map_values(|n: &str| n@) == whisper_candidate_names().take(
            search.lookups@.len() as int,
        ),
        forall|j: int| 0 <= j < search.lookups@.len() - 1 ==> (#[trigger] search.lookups@[j]) is None,
        search.lookups@.len() < whisper_candidate_names().len() ==> search.lookups@.last() is Some,
        chosen_location(search.location, search.lookups@, fallback_exists),
{
    let candidates = whisper_candidates();
    let mut names: Vec<&'static str> = Vec::new();
    let mut lookups: Vec<Option<PathBuf>> = Vec::new();
    let mut i: usize = 0;
    let ghost all = whisper_candidate_names();
    while i < candidates.len()
        invariant_except_break
            i <= candidates.len(),
            lookups.len() == i,
            names.len() == i,
            candidates@.map_values(|n: &str| n@) == all,
            all.len() == 6,
            names@.map_values(|n: &str| n@) == all.take(i as int),
            forall|j: int| 0 <= j < i ==> (#[trigger] lookups@[j]) is None,
        ensures
            1 <= lookups.len() <= 6,
            names@.map_values(|n: &str| n@) == all.take(lookups.len() as int),
            forall|j: int| 0 <= j < lookups.len() - 1 ==> (#[trigger] lookups@[j]) is None,
            lookups.len() < 6 ==> lookups@.last() is Some,
        decreases candidates.len() - i,
    {
        let name = candidates[i];
        assert(candidates@.map_values(|n: &str| n@)[i as int] == name@);
        names.push(name);
        assert(names@.map_values(|n: &str| n@) =~= all.take(i + 1));
        match which_binary(name) {
            Ok(p) => {
                lookups.push(Some(p));
                assert(lookups@.last() is Some);
                break;
            },
            Err(_) => {
                lookups.push(None);
            },
        }
        i = i + 1;
    }
    let ghost seen = lookups@;
    let location = select_whisper_path(lookups, fallback_exists);
    WhisperSearch { names, lookups: Ghost(seen), location }
}

/// Chooses the whisper executable from the results of the `PATH` lookups, in
/// their order: the first path found, else the fallback location when a file
/// exists there, else the not-found message.
pub fn select_whisper_path(
    lookups: Vec<Option<PathBuf>>,
    fallback_exists: bool,
) -> (location: Result<WhisperLocation, String>)
    ensures
        chosen_location(location, lookups@, fallback_exists),
{
    let mut v = lookups;
    let ghost all = v@;
    let mut i: usize = 0;
    while i < v.len()
        invariant
            v@ == all,
            all == lookups@,
            i <= v.len(),
            forall|j: int| 0 <= j < i ==> (#[trigger] v@[j]) is None,
        decreases v.len() - i,
    {
        if v[i].is_some() {
            proof {
                lemma_first_found_skip(all, i as int);
                let rest = all.skip(i as int);
                assert(rest.len() > 0);
                assert(rest[0] == all[i as int]);
                assert(first_found_of(all) == all[i as int]);
            }
            let found = v.swap_remove(i);
            assert(found == all[i as int]);
            let p = found.unwrap();
            return Ok(WhisperLocation::OnPath(p));
        }
        i = i + 1;
    }
    proof {
        lemma_first_found_skip(all, i as int);
    }
    if fallback_exists {
        Ok(WhisperLocation::Fallback)
    } else {
        Err(WHISPER_NOT_FOUND.to_owned())
    }
}

/// Message when the OpenAI key is set but holds nothing.
pub const OPENAI_KEY_NOT_SET: &'static str = "OPENAI_API_KEY not set";

/// The OpenAI endpoint that transcribes audio.
pub const OPENAI_TRANSCRIPTIONS_URL: &'static str = "https://api.openai.com/v1/audio/transcriptions";

/// The OpenAI model that transcribes audio.
pub const OPENAI_MODEL: &'static str = "whisper-1";

/// How a recording is transcribed.
pub enum TranscriptionBackend {
    /// By whisper.cpp, run from this executable.
    Local(PathBuf),
    /// By OpenAI's Whisper API, with this key.
    OpenAi(String),
}

/// Chooses how to transcribe: with the local whisper.cpp when its executable
/// was found; else with OpenAI's API when `OPENAI_API_KEY` holds a key; else
/// the executable's error, or `OPENAI_API_KEY not set` when the variable is
/// there but empty.
pub fn choose_backend(whisper: Result<PathBuf, String>, api_key: Option<String>) -> (backend: Result<
    TranscriptionBackend,
    String,
>)
    ensures
        match whisper {
            Ok(p) => backend == Ok::<TranscriptionBackend, String>(TranscriptionBackend::Local(p)),
            Err(e) => match api_key {
                Some(k) => if k@.len() > 0 {
                    backend == Ok::<TranscriptionBackend, String>(TranscriptionBackend::OpenAi(k))
                } else {
                    backend matches Err(m) && m@ == OPENAI_KEY_NOT_SET@
                },
                None => backend == Err::<TranscriptionBackend, String>(e),
            },
        },
{
    match whisper {
        Ok(p) => Ok(TranscriptionBackend::Local(p)),
        Err(e) => match api_key {
            Some(k) => {
                if k.as_str().unicode_len() > 0 {
                    Ok(TranscriptionBackend::OpenAi(k))
                } else {
                    Err(OPENAI_KEY_NOT_SET.to_owned())
                }
            },
            None => Err(e),
        },
    }
}

/// Message for a model whose file is missing.
pub open spec fn model_missing_message(id: Seq<char>) -> Seq<char> {
    "Model "@ + id + " not found. Please download it from Settings."@
}

/// The file of model `id` in the `models` folder next to the executable,
/// which lies in `exe_dir`, given the platform's path `separator` and whether
/// a file exists at that path.
pub fn get_model_path(model_id: &str, exe_dir: &str, separator: char, model_exists: bool) -> (path: Result<String, String>)
    ensures
        match path {
            Ok(p) => model_exists && p@ == models::model_path_of(exe_dir@, separator, model_id@),
            Err(e) => !model_exists && e@ == model_missing_message(model_id@),
        },
{
    if !model_exists {
        let mut e = String::new();
        push_text(&mut e, "Model ");
        push_text(&mut e, model_id);
        push_text(&mut e, " not found. Please download it from Settings.");
        assert(e@ =~= model_missing_message(model_id@));
        return Err(e);
    }
    Ok(models::model_path(exe_dir, separator, model_id))
}

/// Threads to give whisper: the machine's parallelism, at most eight, or four
/// when it is unknown.
pub fn get_thread_count(available: Option<usize>) -> (n: usize)
    ensures
        n == match available {
            Some(a) => if a < MAX_THREADS { a } else { MAX_THREADS },
            None => DEFAULT_THREADS,
        },
{
    match available {
        Some(a) => if a < MAX_THREADS { a } else { MAX_THREADS },
        None => DEFAULT_THREADS,
    }
}

/// Whisper's arguments: input file, model, no timestamps, the thread count,
/// English, and no progress output.
pub open spec fn whisper_arguments(audio: Seq<char>, model: Seq<char>, threads: nat) -> Seq<Seq<char>> {
    seq!["-f"@, audio, "-m"@, model, "-nt"@, "-t"@, text::decimal_digits(threads), "-l"@, "en"@, "-np"@]
}

/// The command line arguments for transcribing `audio_path` with the model
/// file `model_path` on `threads` threads.
pub fn whisper_args(audio_path: &str, model_path: &str, threads: usize) -> (args: Vec<String>)
    ensures
        args@.map_values(|a: String| a@) == whisper_arguments(audio_path@, model_path@, threads as nat),
{
    let mut args: Vec<String> = Vec::new();
    args.push("-f".to_owned());
    args.push(audio_path.to_owned());
    args.push("-m".to_owned());
    args.push(model_path.to_owned());
    args.push("-nt".to_owned());
    args.push("-t".to_owned());
    args.push(decimal(threads));
    args.push("-l".to_owned());
    args.push("en".to_owned());
    args.push("-np".to_owned());
    assert(args@.map_values(|a: String| a@) =~= whisper_arguments(audio_path@, model_path@, threads as nat));
    args
}

/// Message when whisper exits with a failure.
pub open spec fn whisper_failure_message(stderr: Seq<char>) -> Seq<char> {
    "Whisper failed: "@ + stderr
}

/// The result of a whisper run: on success the transcript in its standard
/// output, on failure what it wrote to standard error.
pub fn whisper_outcome(success: bool, stdout: &str, stderr: &str) -> (r: Result<String, String>)
    ensures
        match r {
            Ok(t) => success && t@ == transcript(stdout@),
            Err(e) => !success && e@ == whisper_failure_message(stderr@),
        },
{
    if !success {
        let mut e = String::new();
        push_text(&mut e, "Whisper failed: ");
        push_text(&mut e, stderr);
        return Err(e);
    }
    Ok(transcript_from_output(stdout))
}

/// A line of whisper's output that belongs to the transcript: not blank, and
/// not a bracketed marker such as `[BLANK_AUDIO]` or a timestamp.
pub open spec fn is_transcript_line(line: Seq<char>) -> bool {
    &&& text::trim(line).len() > 0
    &&& !(line.len() > 0 && line[0] == '[')
}

/// The transcript in whisper's standard output: its transcript lines joined
/// with single spaces, without surrounding whitespace.
pub open spec fn transcript(output: Seq<char>) -> Seq<char> {
    text::trim(text::join_with_spaces(text::lines(output).filter(|l: Seq<char>| is_transcript_line(l))))
}

/// Which lines of whisper's output make the transcript: a line is left out
/// exactly when it holds only whitespace or its very first character is
/// `'['`; any other first character, such as `'('`, keeps it.
pub proof fn lemma_transcript_line_rule(line: Seq<char>)
    ensures
        is_transcript_line(line) == (!text::is_blank(line) && !(line.len() > 0 && line[0] == '[')),
        line.len() > 0 && line[0] != '[' && !text::is_whitespace(line[0]) ==> is_transcript_line(line),
{
    text::lemma_trim_empty_iff_blank(line);
}

/// Output of one line without a line break: its transcript is the line
/// trimmed when the line holds something other than whitespace and does not
/// start with `'['`, else nothing.
pub proof fn lemma_single_line_transcript(line: Seq<char>)
    requires
        text::is_single_line(line),
    ensures
        !text::is_blank(line) && !(line.len() > 0 && line[0] == '[') ==> transcript(line)
            == text::trim(line),
        text::is_blank(line) || (line.len() > 0 && line[0] == '[') ==> transcript(line).len() == 0,
{
    let keep = |l: Seq<char>| is_transcript_line(l);
    lemma_transcript_line_rule(line);
    text::lemma_lines_of_single_line(line);
    let empty = Seq::<Seq<char>>::empty();
    assert(empty.filter(keep) =~= empty) by {
        reveal(Seq::filter);
    }
    if line.len() == 0 {
        assert(text::lines(line) =~= empty);
        assert(text::trim(Seq::<char>::empty()) =~= Seq::<char>::empty());
    } else {
        assert(text::lines(line) =~= empty.push(line));
        empty.lemma_filter_push(line, keep);
        if keep(line) {
            assert(empty.filter(keep).push(line) =~= seq![line]);
        } else {
            assert(text::trim(Seq::<char>::empty()) =~= Seq::<char>::empty());
        }
    }
}

/// Whatever whisper writes, the transcript is a single line of text with no
/// surrounding whitespace.
pub proof fn lemma_transcript_single_trimmed_line(output: Seq<char>)
    ensures
        text::is_single_line(transcript(output)),
        transcript(output).len() > 0 ==> !text::is_whitespace(transcript(output)[0])
            && !text::is_whitespace(transcript(output).last()),
{
    let keep = |l: Seq<char>| is_transcript_line(l);
    let kept = text::lines(output).filter(keep);
    text::lemma_lines_single(output);
    text::lemma_filter_single(text::lines(output), keep);
    text::lemma_join_single(kept);
    text::lemma_trim_single(text::join_with_spaces(kept));
    text::lemma_trim_ends(text::join_with_spaces(kept));
}

/// Whether `v[from..to]` is a transcript line.
fn is_transcript_range(v: &Vec<char>, from: usize, to: usize) -> (b: bool)
    requires
        from <= to <= v.len(),
    ensures
        b == is_transcript_line(v@.subrange(from as int, to as int)),
{
    let ghost line = v@.subrange(from as int, to as int);
    if from < to && v[from] == '[' {
        return false;
    }
    assert(line.len() > 0 ==> line[0] == v@[from as int]);
    let mut i = from;
    while i < to
        invariant
            from <= i <= to <= v.len(),
            line == v@.subrange(from as int, to as int),
            from < to ==> v@[from as int] != '[',
            forall|j: int| from <= j < i ==> text::is_whitespace(#[trigger] v@[j]),
        decreases to - i,
    {
        if !is_whitespace_char(v[i]) {
            proof {
                text::lemma_trim_empty_iff_blank(line);
                assert(line[i - from] == v@[i as int]);
            }
            return true;
        }
        i = i + 1;
    }
    proof {
        text::lemma_trim_empty_iff_blank(line);
        assert forall|j: int| 0 <= j < line.len() implies text::is_whitespace(#[trigger] line[j]) by {
            assert(line[j] == v@[j + from]);
        }
    }
    false
}

/// Appends `v[from..to]` to the joined transcript lines when it is one.
fn add_line(
    joined: &mut Vec<char>,
    v: &Vec<char>,
    from: usize,
    to: usize,
    Ghost(kept): Ghost<Seq<Seq<char>>>,
) -> (kept_after: Ghost<Seq<Seq<char>>>)
    requires
        from <= to <= v.len(),
        old(joined)@ == text::join_with_spaces(kept),
        forall|k: int| 0 <= k < kept.len() ==> (#[trigger] kept[k]).len() > 0,
    ensures
        kept_after@ == if is_transcript_line(v@.subrange(from as int, to as int)) {
            kept.push(v@.subrange(from as int, to as int))
        } else {
            kept
        },
        final(joined)@ == text::join_with_spaces(kept_after@),
        forall|k: int| 0 <= k < kept_after@.len() ==> (#[trigger] kept_after@[k]).len() > 0,
{
    let ghost line = v@.subrange(from as int, to as int);
    if is_transcript_range(v, from, to) {
        proof {
            text::lemma_join_nonempty(kept);
            text::lemma_join_push(kept, line);
        }
        if joined.len() > 0 {
            joined.push(' ');
        }
        extend_from_range(joined, v, from, to);
        proof {
            let after = kept.push(line);
            assert forall|k: int| 0 <= k < after.len() implies (#[trigger] after[k]).len() > 0 by {
                if k < kept.len() {
                    assert(after[k] == kept[k]);
                }
            }
        }
        Ghost(kept.push(line))
    } else {
        Ghost(kept)
    }
}

/// The transcript in whisper's standard output `output`.
pub fn transcript_from_output(output: &str) -> (text: String)
    ensures
        text@ == transcript(output@),
{
    let v = chars_of(output);
    let n = v.len();
    let mut joined: Vec<char> = Vec::new();
    let mut start: usize = 0;
    let ghost mut ended: Seq<Seq<char>> = Seq::empty();
    let ghost mut kept: Seq<Seq<char>> = Seq::empty();
    let ghost keep = |l: Seq<char>| is_transcript_line(l);
    let ghost strip = |l: Seq<char>| text::strip_carriage_return(l);
    assert(v@.take(0) =~= Seq::<char>::empty());
    assert(ended.push(v@.subrange(0, 0)) =~= seq![Seq::<char>::empty()]);
    let mut i: usize = 0;
    while i < n
        invariant
            n == v.len(),
            v@ == output@,
            start <= i <= n,
            text::split_newlines(v@.take(i as int)) == ended.push(v@.subrange(start as int, i as int)),
            keep == (|l: Seq<char>| is_transcript_line(l)),
            strip == (|l: Seq<char>| text::strip_carriage_return(l)),
            kept == ended.map_values(strip).filter(keep),
            joined@ == text::join_with_spaces(kept),
            forall|k: int| 0 <= k < kept.len() ==> (#[trigger] kept[k]).len() > 0,
        decreases n - i,
    {
        let ghost before = v@.take(i as int);
        assert(v@.take(i + 1).drop_last() =~= before);
        if v[i] == '\n' {
            let end = if i > start && v[i - 1] == '\r' {
                i - 1
            } else {
                i
            };
            let ghost line = v@.subrange(start as int, i as int);
            assert(text::strip_carriage_return(line) =~= v@.subrange(start as int, end as int));
            let Ghost(k2) = add_line(&mut joined, &v, start, end, Ghost(kept));
            proof {
                assert(ended.push(line).map_values(strip) =~= ended.map_values(strip).push(
                    strip(line),
                ));
                ended.map_values(strip).lemma_filter_push(strip(line), keep);
                ended = ended.push(line);
                kept = k2;
                assert(v@.subrange(i + 1, i + 1) =~= Seq::<char>::empty());
            }
            start = i + 1;
        } else {
            proof {
                text::lemma_split_newlines_nonempty(before);
                assert(v@.subrange(start as int, i + 1) =~= v@.subrange(start as int, i as int).push(
                    v@[i as int],
                ));
                assert(text::split_newlines(v@.take(i + 1)) =~= ended.push(
                    v@.subrange(start as int, i + 1),
                ));
            }
        }
        i = i + 1;
    }
    assert(v@.take(n as int) =~= v@);
    let ghost last = v@.subrange(start as int, n as int);
    assert(ended.push(last).drop_last() =~= ended);
    if start < n {
        let Ghost(k2) = add_line(&mut joined, &v, start, n, Ghost(kept));
        proof {
            ended.map_values(strip).lemma_filter_push(last, keep);
            kept = k2;
        }
    }
    assert(kept == text::lines(output@).filter(keep));
    let (a, b) = trim_bounds(&joined);
    string_from_range(&joined, a, b)
}

} // verus!
