//! Environment files: where they are, what they hold, and how their variables
//! join those that a task declares.

use crate::collections::{map_entries, map_get, map_insert, map_keys, map_new, strs, StrMap};
use crate::error::{ErrorView, TasksExpanderError};
use crate::substitute::{lemma_plain_value_unchanged, substituted, substituted_all};
use vstd::prelude::*;
use vstd::string::StringExecFns;

verus! {

/// `parent`, a separator and `child`; or `child` alone where `parent` is empty.
pub open spec fn path_joined(parent: Seq<char>, child: Seq<char>) -> Seq<char> {
    if parent.len() == 0 {
        child
    } else {
        parent + "/"@ + child
    }
}

/// The path of an environment file of a task: the file as the task names it,
/// under the project's source directory, under the workspace root.
pub open spec fn env_file_path(
    workspace_root: Seq<char>,
    source: Seq<char>,
    file: Seq<char>,
) -> Seq<
    char,
> {
    path_joined(workspace_root, path_joined(source, file))
}

fn join_path(parent: &str, child: &str) -> (r: String)
    ensures
        r@ == path_joined(parent@, child@),
{
    if parent.is_empty() {
        child.to_owned()
    } else {
        let mut r = parent.to_owned();
        r.append("/");
        r.append(child);
        r
    }
}

/// Resolves the path of an environment file of a task.
pub fn resolve_env_file(workspace_root: &str, source: &str, file: &str) -> (r: String)
    ensures
        r@ == env_file_path(workspace_root@, source@, file@),
{
    let inner = join_path(source, file);
    join_path(workspace_root, inner.as_str())
}

/// The values of a list of key/value pairs.
pub open spec fn pair_views(pairs: Seq<(String, String)>) -> Seq<(Seq<char>, Seq<char>)> {
    pairs.map_values(|p: (String, String)| (p.0@, p.1@))
}

/// An environment file as it was found.
#[derive(Debug)]
pub enum EnvFile {
    /// There is no file at the path.
    Missing,
    /// The bytes of the file.
    Content(Vec<u8>),
    /// There is a file at the path and it could not be read; the error says why.
    Unreadable(dotenvy::Error),
}

/// Whether the parser accepts the bytes as an environment file: they are text,
/// and every line is blank, a comment or a declaration that it can read. This
/// depends on the bytes alone.
pub uninterp spec fn env_file_valid(content: Seq<u8>) -> bool;

/// The names of the variables that the parser reads from the bytes of a valid
/// environment file: one for each declaration, in the file's order. They depend
/// on the bytes alone.
pub uninterp spec fn env_file_keys(content: Seq<u8>) -> Seq<Seq<char>>;

/// The names of a list of key/value pairs.
pub open spec fn pair_keys(pairs: Seq<(Seq<char>, Seq<char>)>) -> Seq<Seq<char>> {
    pairs.map_values(|p: (Seq<char>, Seq<char>)| p.0)
}

/// What the parser makes of the bytes of an environment file: its key/value
/// pairs, or an error.
pub type ParsedFile = Result<Vec<(String, String)>, dotenvy::Error>;

/// `dotenvy::from_read_iter`, run to its end: the key/value pairs of the lines
/// of an environment file, in the file's order, or the first error. Whether
/// there is an error, and which names are declared, is decided by the bytes.
/// Nothing is promised of the values: the parser fills references to variables
/// from the environment of the process.
#[verifier::external_body]
fn parse_env_file(content: &[u8]) -> (r: Result<Vec<(String, String)>, dotenvy::Error>)
    ensures
        r is Ok <==> env_file_valid(content@),
        r is Ok ==> pair_keys(pair_views(r->Ok_0@)) == env_file_keys(content@),
{
    dotenvy::from_read_iter(content).collect()
}

/// `env` after the pairs are inserted one by one: a later value of a key replaces
/// an earlier one.
pub open spec fn with_pairs(
    env: Map<Seq<char>, Seq<char>>,
    pairs: Seq<(Seq<char>, Seq<char>)>,
) -> Map<Seq<char>, Seq<char>>
    decreases pairs.len(),
{
    if pairs.len() == 0 {
        env
    } else {
        with_pairs(env, pairs.drop_last()).insert(pairs.last().0, pairs.last().1)
    }
}

/// Inserts the pairs into `env` one by one.
pub fn insert_pairs(env: &mut StrMap, pairs: &Vec<(String, String)>)
    ensures
        map_entries(*final(env)) == with_pairs(map_entries(*old(env)), pair_views(pairs@)),
{
    let mut i: usize = 0;
    while i < pairs.len()
        invariant
            0 <= i <= pairs.len(),
            map_entries(*env) == with_pairs(
                map_entries(*old(env)),
                pair_views(pairs@).take(i as int),
            ),
        decreases pairs.len() - i,
    {
        map_insert(env, pairs[i].0.clone(), pairs[i].1.clone());
        proof {
            let now = pair_views(pairs@).take(i + 1);
            assert(now.drop_last() =~= pair_views(pairs@).take(i as int));
            assert(now.last() == (pairs[i as int].0@, pairs[i as int].1@));
        }
        i += 1;
    }
    assert(pair_views(pairs@).take(pairs.len() as int) =~= pair_views(pairs@));
}

/// `env` with the variables of `from` that it lacks: a variable that `env` has
/// keeps its value.
pub open spec fn filled(
    env: Map<Seq<char>, Seq<char>>,
    from: Map<Seq<char>, Seq<char>>,
) -> Map<Seq<char>, Seq<char>> {
    from.union_prefer_right(env)
}

/// Adds to `env` the variables of `from` that it lacks.
pub fn fill_absent(env: &mut StrMap, from: &StrMap)
    ensures
        map_entries(*final(env)) == filled(map_entries(*old(env)), map_entries(*from)),
{
    let keys = map_keys(from);
    let ghost source = map_entries(*from);
    let mut i: usize = 0;
    while i < keys.len()
        invariant
            0 <= i <= keys.len(),
            source == map_entries(*from),
            strs(keys@).to_set() == source.dom(),
            forall|k: Seq<char>| #[trigger]
                map_entries(*env).contains_key(k) <==> map_entries(*old(env)).contains_key(k)
                    || strs(keys@).take(i as int).contains(k),
            forall|k: Seq<char>| #[trigger]
                map_entries(*env).contains_key(k) ==> map_entries(*env)[k] == if map_entries(
                    *old(env),
                ).contains_key(k) {
                    map_entries(*old(env))[k]
                } else {
                    source[k]
                },
        decreases keys.len() - i,
    {
        let key = &keys[i];
        assert(strs(keys@)[i as int] == key@);
        assert(strs(keys@).to_set().contains(key@));
        let ghost before = map_entries(*env);
        match map_get(from, key.as_str()) {
            Some(value) => {
                if map_get(env, key.as_str()).is_none() {
                    map_insert(env, key.clone(), value.clone());
                }
            },
            None => {
                assert(false);
            },
        }
        proof {
            let done = strs(keys@).take(i as int);
            let now = strs(keys@).take(i + 1);
            assert(now =~= done.push(key@));
            assert forall|k: Seq<char>| #[trigger]
                map_entries(*env).contains_key(k) <==> map_entries(*old(env)).contains_key(k)
                    || now.contains(k) by {
                if done.contains(k) {
                    let j = choose|j: int| 0 <= j < done.len() && done[j] == k;
                    assert(now[j] == k);
                }
                if k == key@ {
                    assert(now[i as int] == k);
                }
            }
        }
        i += 1;
    }
    proof {
        assert(strs(keys@).take(keys.len() as int) =~= strs(keys@));
        assert forall|k: Seq<char>| strs(keys@).contains(k) <==> source.contains_key(k) by {
            assert(strs(keys@).to_set().contains(k) <==> source.dom().contains(k));
        }
        assert(map_entries(*env) =~= filled(map_entries(*old(env)), source));
    }
}

/// What came of reading one environment file.
pub enum FileAnswer {
    /// The file does not exist.
    Missing,
    /// The file exists and cannot be read or parsed; the error says why.
    Invalid(dotenvy::Error),
    /// The file's key/value pairs, in the file's order.
    Pairs(Seq<(Seq<char>, Seq<char>)>),
}

/// The variables of the first `n` environment files together: a later file's
/// value of a variable replaces an earlier file's, a missing file adds nothing,
/// and the first file that cannot be read or parsed is the failure.
pub open spec fn loaded(paths: Seq<Seq<char>>, answers: Seq<FileAnswer>, n: nat) -> Result<
    Map<Seq<char>, Seq<char>>,
    ErrorView,
>
    decreases n,
{
    if n == 0 {
        Ok(Map::empty())
    } else {
        match loaded(paths, answers, (n - 1) as nat) {
            Err(e) => Err(e),
            Ok(env) => match answers[n - 1] {
                FileAnswer::Missing => Ok(env),
                FileAnswer::Invalid(error) => Err(
                    ErrorView::InvalidEnvFile { path: paths[n - 1], error },
                ),
                FileAnswer::Pairs(pairs) => Ok(with_pairs(env, pairs)),
            },
        }
    }
}

/// The `i`-th environment file, where `files` lists the files in order: missing
/// where the list ends before it.
pub open spec fn file_at(files: Seq<EnvFile>, i: int) -> EnvFile {
    if 0 <= i < files.len() {
        files[i]
    } else {
        EnvFile::Missing
    }
}

/// Whether the file can be loaded: it is missing, or its bytes are a valid
/// environment file.
pub open spec fn file_loads(file: EnvFile) -> bool {
    match file {
        EnvFile::Missing => true,
        EnvFile::Content(bytes) => env_file_valid(bytes@),
        EnvFile::Unreadable(_) => false,
    }
}

/// Whether `answer` can be what came of reading `file`: a missing file is
/// missing; a file that could not be read is invalid with the error of the
/// reading; a file with content is invalid, with the parser's error, exactly
/// when its bytes are not valid, and else has pairs under the names that the
/// bytes declare.
pub open spec fn answer_fits(file: EnvFile, answer: FileAnswer) -> bool {
    match file {
        EnvFile::Missing => answer is Missing,
        EnvFile::Content(bytes) => if env_file_valid(bytes@) {
            answer is Pairs && pair_keys(answer->Pairs_0) == env_file_keys(bytes@)
        } else {
            answer is Invalid
        },
        EnvFile::Unreadable(error) => answer == FileAnswer::Invalid(error),
    }
}

/// Whether there is one answer for each of the `n` files, and each fits its
/// file.
pub open spec fn answers_fit(n: nat, files: Seq<EnvFile>, answers: Seq<FileAnswer>) -> bool {
    &&& answers.len() == n
    &&& forall|i: int| 0 <= i < n ==> answer_fits(file_at(files, i), #[trigger] answers[i])
}

/// Whether `r` is the result that the model gives.
pub open spec fn load_matches(
    r: Result<StrMap, TasksExpanderError>,
    model: Result<Map<Seq<char>, Seq<char>>, ErrorView>,
) -> bool {
    match model {
        Ok(env) => r is Ok && map_entries(r->Ok_0) == env,
        Err(e) => r is Err && r->Err_0@ == e,
    }
}

/// Only the answers for the files read matter.
pub proof fn lemma_loaded_answers(
    paths: Seq<Seq<char>>,
    a: Seq<FileAnswer>,
    b: Seq<FileAnswer>,
    n: nat,
)
    requires
        forall|i: int| 0 <= i < n ==> a[i] == b[i],
    ensures
        loaded(paths, a, n) == loaded(paths, b, n),
    decreases n,
{
    if n > 0 {
        lemma_loaded_answers(paths, a, b, (n - 1) as nat);
    }
}

/// A failure among the first `n` files is the failure of any longer run.
pub proof fn lemma_loaded_failure(paths: Seq<Seq<char>>, answers: Seq<FileAnswer>, n: nat, m: nat)
    requires
        n <= m,
        loaded(paths, answers, n) is Err,
    ensures
        loaded(paths, answers, m) == loaded(paths, answers, n),
    decreases m,
{
    if n < m {
        lemma_loaded_failure(paths, answers, n, (m - 1) as nat);
    }
}

/// Whether `parsed`, merged into `before`, gives `after` and the result `r`:
/// pairs are inserted one by one; an error makes the file at `path` invalid, is
/// carried in the failure, and leaves the variables as they were.
pub open spec fn parsed_merged(
    before: StrMap,
    path: Seq<char>,
    parsed: Result<Vec<(String, String)>, dotenvy::Error>,
    after: StrMap,
    r: Result<(), TasksExpanderError>,
) -> bool {
    match parsed {
        Ok(pairs) => r is Ok && map_entries(after) == with_pairs(
            map_entries(before),
            pair_views(pairs@),
        ),
        Err(error) => after == before && r is Err && r->Err_0@ == (ErrorView::InvalidEnvFile {
            path,
            error,
        }),
    }
}

/// Merges what the parser made of the environment file at `path` into `env`.
pub fn merge_parsed(
    env: &mut StrMap,
    path: &str,
    parsed: Result<Vec<(String, String)>, dotenvy::Error>,
) -> (r: Result<(), TasksExpanderError>)
    ensures
        parsed_merged(*old(env), path@, parsed, *final(env), r),
{
    match parsed {
        Ok(pairs) => {
            insert_pairs(env, &pairs);
            Ok(())
        },
        Err(error) => Err(TasksExpanderError::InvalidEnvFile { path: path.to_owned(), error }),
    }
}

/// What came of the parsed file, as an answer: nothing parsed is a missing
/// file, an error an invalid one.
pub open spec fn answer_of(parsed: Option<ParsedFile>) -> FileAnswer {
    match parsed {
        None => FileAnswer::Missing,
        Some(Ok(pairs)) => FileAnswer::Pairs(pair_views(pairs@)),
        Some(Err(error)) => FileAnswer::Invalid(error),
    }
}

/// The `i`-th of the parsed files: nothing where the list ends before it.
pub open spec fn parsed_at(parsed: Seq<Option<ParsedFile>>, i: int) -> Option<ParsedFile> {
    if 0 <= i < parsed.len() {
        parsed[i]
    } else {
        None
    }
}

/// The answers that the parsed files are, for `n` files.
pub open spec fn answers_of(parsed: Seq<Option<ParsedFile>>, n: nat) -> Seq<FileAnswer> {
    Seq::new(n, |i: int| answer_of(parsed_at(parsed, i)))
}

/// Merges the variables of the parsed environment files at `paths`, in the
/// order of the files: a later file's value of a variable replaces an earlier
/// file's. `parsed` lists what the parser made of each file, in the same order,
/// with nothing for a missing file. The first error fails the whole, with its
/// file's path.
pub fn merge_files(paths: &Vec<String>, parsed: Vec<Option<ParsedFile>>) -> (r: Result<
    StrMap,
    TasksExpanderError,
>)
    ensures
        load_matches(
            r,
            loaded(strs(paths@), answers_of(parsed@, paths@.len()), paths@.len()),
        ),
{
    let mut env = map_new();
    let mut rest = parsed;
    let ghost answers = answers_of(parsed@, paths@.len());
    let mut i: usize = 0;
    assert(map_entries(env) =~= Map::empty());
    assert(rest@ =~= parsed@.skip(0));
    while i < paths.len()
        invariant
            0 <= i <= paths.len(),
            answers == answers_of(parsed@, paths@.len()),
            i <= parsed@.len() ==> rest@ == parsed@.skip(i as int),
            i > parsed@.len() ==> rest@.len() == 0,
            loaded(strs(paths@), answers, i as nat) == Ok::<Map<Seq<char>, Seq<char>>, ErrorView>(
                map_entries(env),
            ),
        decreases paths.len() - i,
    {
        let entry = if rest.len() > 0 {
            rest.remove(0)
        } else {
            None
        };
        assert(entry == parsed_at(parsed@, i as int));
        assert(i < parsed@.len() ==> rest@ =~= parsed@.skip(i + 1));
        assert(answers[i as int] == answer_of(entry));
        assert(strs(paths@)[i as int] == paths[i as int]@);
        match entry {
            None => {},
            Some(file) => {
                match merge_parsed(&mut env, paths[i].as_str(), file) {
                    Ok(_) => {},
                    Err(e) => {
                        proof {
                            assert(loaded(strs(paths@), answers, (i + 1) as nat) is Err);
                            lemma_loaded_failure(
                                strs(paths@),
                                answers,
                                (i + 1) as nat,
                                paths@.len(),
                            );
                        }
                        return Err(e);
                    },
                }
            },
        }
        i += 1;
    }
    Ok(env)
}

/// Whether `parsed` can be what the parser made of `file`: nothing of a missing
/// file; the error of the reading of a file that could not be read; of a file
/// with content an error exactly when its bytes are not valid, and else pairs
/// under the names that the bytes declare.
pub open spec fn parsed_fits(file: EnvFile, parsed: Option<ParsedFile>) -> bool {
    match file {
        EnvFile::Missing => parsed is None,
        EnvFile::Content(bytes) => {
            &&& parsed is Some
            &&& parsed->0 is Ok <==> env_file_valid(bytes@)
            &&& parsed->0 is Ok ==> pair_keys(pair_views(parsed->0->Ok_0@)) == env_file_keys(
                bytes@,
            )
        },
        EnvFile::Unreadable(error) => parsed == Some(Err::<Vec<(String, String)>, dotenvy::Error>(
            error,
        )),
    }
}

/// Hands the bytes of each of the first `n` files to the parser, in order, up to
/// the first file that cannot be read or parsed.
pub fn parse_env_files(files: Vec<EnvFile>, n: usize) -> (parsed: Vec<Option<ParsedFile>>)
    ensures
        parsed@.len() <= n,
        forall|j: int|
            0 <= j < parsed@.len() ==> parsed_fits(file_at(files@, j), #[trigger] parsed@[j]),
        forall|j: int|
            0 <= j < parsed@.len() - 1 ==> !(answer_of(#[trigger] parsed@[j]) is Invalid),
        parsed@.len() < n ==> parsed@.len() >= files@.len() || (parsed@.len() > 0 && answer_of(
            parsed@.last(),
        ) is Invalid),
{
    let mut parsed: Vec<Option<ParsedFile>> = Vec::new();
    let mut rest = files;
    assert(rest@ =~= files@.skip(0));
    while parsed.len() < n && rest.len() > 0
        invariant
            parsed@.len() <= n,
            parsed@.len() <= files@.len(),
            rest@ == files@.skip(parsed@.len() as int),
            forall|j: int|
                0 <= j < parsed@.len() ==> parsed_fits(file_at(files@, j), #[trigger] parsed@[j]),
            forall|j: int|
                0 <= j < parsed@.len() ==> !(answer_of(#[trigger] parsed@[j]) is Invalid),
        decreases rest@.len(),
    {
        let ghost i = parsed@.len() as int;
        let file = rest.remove(0);
        assert(file == file_at(files@, i));
        assert(rest@ =~= files@.skip(i + 1));
        let entry = match file {
            EnvFile::Missing => None,
            EnvFile::Content(bytes) => Some(parse_env_file(bytes.as_slice())),
            EnvFile::Unreadable(error) => Some(Err(error)),
        };
        let failed = match &entry {
            Some(Err(_)) => true,
            _ => false,
        };
        parsed.push(entry);
        if failed {
            return parsed;
        }
    }
    parsed
}

/// Reads the variables of the environment files at `paths`, in the order of the
/// files. `files` lists the files as they were found, in the same order. The
/// first file that cannot be read or parsed fails the whole, with the file's
/// path and the error; the files after it are not looked at.
pub fn load_env_files(paths: &Vec<String>, files: Vec<EnvFile>) -> (r: Result<
    StrMap,
    TasksExpanderError,
>)
    ensures
        exists|answers: Seq<FileAnswer>|
            answers_fit(paths@.len(), files@, answers) && load_matches(
                r,
                #[trigger] loaded(strs(paths@), answers, paths@.len()),
            ),
{
    let parsed = parse_env_files(files, paths.len());
    let ghost given = parsed@;
    let r = merge_files(paths, parsed);
    proof {
        let n = paths@.len();
        let m = given.len();
        let made = answers_of(given, n);
        let answers = Seq::new(
            n,
            |j: int|
                if j < m {
                    answer_of(given[j])
                } else {
                    fitting_answer(file_at(files@, j))
                },
        );
        assert forall|j: int| 0 <= j < n implies answer_fits(
            file_at(files@, j),
            #[trigger] answers[j],
        ) by {
            if j < m {
                assert(parsed_fits(file_at(files@, j), given[j]));
            } else {
                lemma_fitting_answer_fits(file_at(files@, j));
            }
        }
        if m > 0 && answer_of(given.last()) is Invalid {
            assert forall|j: int| 0 <= j < m - 1 implies !(made[j] is Invalid) by {
                assert(!(answer_of(given[j]) is Invalid));
            }
            lemma_files_load(strs(paths@), made, (m - 1) as nat);
            assert(loaded(strs(paths@), made, m as nat) is Err);
            lemma_loaded_answers(strs(paths@), made, answers, m as nat);
            lemma_loaded_failure(strs(paths@), made, m as nat, n);
            lemma_loaded_failure(strs(paths@), answers, m as nat, n);
        } else {
            assert(made =~= answers);
        }
        assert(load_matches(r, loaded(strs(paths@), answers, n)));
    }
    r
}

/// An answer that fits the file, for a file that was not reached.
pub open spec fn fitting_answer(file: EnvFile) -> FileAnswer {
    match file {
        EnvFile::Missing => FileAnswer::Missing,
        EnvFile::Content(bytes) => if env_file_valid(bytes@) {
            FileAnswer::Pairs(
                env_file_keys(bytes@).map_values(|key: Seq<char>| (key, Seq::<char>::empty())),
            )
        } else {
            FileAnswer::Invalid(arbitrary())
        },
        EnvFile::Unreadable(error) => FileAnswer::Invalid(error),
    }
}

/// The answer that stands for a file that was not reached fits the file.
pub proof fn lemma_fitting_answer_fits(file: EnvFile)
    ensures
        answer_fits(file, fitting_answer(file)),
{
    match file {
        EnvFile::Content(bytes) => {
            if env_file_valid(bytes@) {
                let keys = env_file_keys(bytes@);
                let pairs = keys.map_values(|key: Seq<char>| (key, Seq::<char>::empty()));
                assert(pair_keys(pairs) =~= keys);
            }
        },
        _ => {},
    }
}

/// The environment of a task after expansion. `declared` is the task's own
/// environment with its tokens resolved; the variables that the environment
/// files at `paths` hold are added where the task declares none of that name; at
/// last every value is substituted against the whole.
pub open spec fn expanded_env(
    declared: Result<Map<Seq<char>, Seq<char>>, Seq<char>>,
    paths: Seq<Seq<char>>,
    answers: Seq<FileAnswer>,
) -> Result<Map<Seq<char>, Seq<char>>, ErrorView> {
    match declared {
        Err(message) => Err(ErrorView::TokenFailure { message }),
        Ok(env) => match loaded(paths, answers, paths.len()) {
            Err(e) => Err(e),
            Ok(from_files) => Ok(substituted_all(filled(env, from_files))),
        },
    }
}

/// A variable that the task declares keeps the declared value when environment
/// files are merged in, whatever the files hold for it; its final value is the
/// declared value, substituted. A declared value without a `$` is final as it
/// stands.
pub proof fn lemma_declared_value_wins(
    declared: Map<Seq<char>, Seq<char>>,
    from_files: Map<Seq<char>, Seq<char>>,
    key: Seq<char>,
)
    requires
        declared.contains_key(key),
    ensures
        filled(declared, from_files)[key] == declared[key],
        substituted_all(filled(declared, from_files)).contains_key(key),
        substituted_all(filled(declared, from_files))[key] == substituted(
            key,
            declared[key],
            filled(declared, from_files),
        ),
        !declared[key].contains('$') ==> substituted_all(filled(declared, from_files))[key]
            == declared[key],
{
    if !declared[key].contains('$') {
        lemma_plain_value_unchanged(key, declared[key], filled(declared, from_files));
    }
}

/// Environment files that are all missing fail nothing and add no variable; the
/// task's environment is as if it named no files.
pub proof fn lemma_missing_files_add_nothing(
    declared: Map<Seq<char>, Seq<char>>,
    paths: Seq<Seq<char>>,
    answers: Seq<FileAnswer>,
    n: nat,
)
    requires
        forall|i: int| 0 <= i < n ==> answers[i] is Missing,
    ensures
        loaded(paths, answers, n) == Ok::<Map<Seq<char>, Seq<char>>, ErrorView>(Map::empty()),
        n == paths.len() ==> expanded_env(Ok(declared), paths, answers) == Ok::<
            Map<Seq<char>, Seq<char>>,
            ErrorView,
        >(substituted_all(declared)),
        n == paths.len() ==> expanded_env(Ok(declared), paths, answers) == expanded_env(
            Ok(declared),
            Seq::empty(),
            answers,
        ),
    decreases n,
{
    if n > 0 {
        lemma_missing_files_add_nothing(declared, paths, answers, (n - 1) as nat);
    }
    assert(filled(declared, Map::empty()) =~= declared);
}

/// A missing file among others adds nothing: the variables loaded are those of
/// the files before it.
pub proof fn lemma_missing_file_skipped(paths: Seq<Seq<char>>, answers: Seq<FileAnswer>, n: nat)
    requires
        n > 0,
        answers[n - 1] is Missing,
    ensures
        loaded(paths, answers, n) == loaded(paths, answers, (n - 1) as nat),
{
}

/// The first environment file that cannot be read or parsed fails the
/// expansion of the environment with that file's path and its error, whatever
/// the other files hold.
pub proof fn lemma_invalid_file_fails(
    declared: Map<Seq<char>, Seq<char>>,
    paths: Seq<Seq<char>>,
    answers: Seq<FileAnswer>,
    i: int,
)
    requires
        0 <= i < paths.len(),
        answers[i] is Invalid,
        forall|j: int| 0 <= j < i ==> !(answers[j] is Invalid),
    ensures
        expanded_env(Ok(declared), paths, answers) == Err::<
            Map<Seq<char>, Seq<char>>,
            ErrorView,
        >(ErrorView::InvalidEnvFile { path: paths[i], error: answers[i]->Invalid_0 }),
{
    lemma_files_load(paths, answers, i as nat);
    assert(loaded(paths, answers, (i + 1) as nat) is Err);
    lemma_loaded_failure(paths, answers, (i + 1) as nat, paths.len());
}

/// Files of which none is invalid load without a failure, the missing ones
/// among them adding nothing.
pub proof fn lemma_files_load(paths: Seq<Seq<char>>, answers: Seq<FileAnswer>, n: nat)
    requires
        forall|j: int| 0 <= j < n ==> !(answers[j] is Invalid),
    ensures
        loaded(paths, answers, n) is Ok,
    decreases n,
{
    if n > 0 {
        lemma_files_load(paths, answers, (n - 1) as nat);
    }
}

/// Files that load without a failure hold no invalid file.
pub proof fn lemma_loaded_files_valid(paths: Seq<Seq<char>>, answers: Seq<FileAnswer>, n: nat)
    requires
        loaded(paths, answers, n) is Ok,
    ensures
        forall|j: int| 0 <= j < n ==> !(answers[j] is Invalid),
    decreases n,
{
    if n > 0 {
        lemma_loaded_files_valid(paths, answers, (n - 1) as nat);
    }
}

/// A failure to load is the failure of an invalid file: the first one.
pub proof fn lemma_failure_names_invalid_file(
    paths: Seq<Seq<char>>,
    answers: Seq<FileAnswer>,
    n: nat,
) -> (i: int)
    requires
        loaded(paths, answers, n) is Err,
    ensures
        0 <= i < n,
        answers[i] is Invalid,
        forall|j: int| 0 <= j < i ==> !(answers[j] is Invalid),
        loaded(paths, answers, n) == Err::<Map<Seq<char>, Seq<char>>, ErrorView>(
            ErrorView::InvalidEnvFile { path: paths[i], error: answers[i]->Invalid_0 },
        ),
    decreases n,
{
    if loaded(paths, answers, (n - 1) as nat) is Err {
        lemma_failure_names_invalid_file(paths, answers, (n - 1) as nat)
    } else {
        lemma_loaded_files_valid(paths, answers, (n - 1) as nat);
        n - 1
    }
}

/// The names that the first `n` files declare, by the answers for them.
pub open spec fn loaded_names(answers: Seq<FileAnswer>, n: nat) -> Set<Seq<char>>
    decreases n,
{
    if n == 0 {
        Set::empty()
    } else {
        loaded_names(answers, (n - 1) as nat).union(
            match answers[n - 1] {
                FileAnswer::Pairs(pairs) => pair_keys(pairs).to_set(),
                _ => Set::empty(),
            },
        )
    }
}

/// The names that the first `n` files declare, by their bytes.
pub open spec fn file_names(files: Seq<EnvFile>, n: nat) -> Set<Seq<char>>
    decreases n,
{
    if n == 0 {
        Set::empty()
    } else {
        file_names(files, (n - 1) as nat).union(
            match file_at(files, n - 1) {
                EnvFile::Content(bytes) => env_file_keys(bytes@).to_set(),
                _ => Set::empty(),
            },
        )
    }
}

proof fn lemma_names_with_one_more(names: Seq<Seq<char>>, name: Seq<char>)
    ensures
        names.push(name).to_set() == names.to_set().insert(name),
{
    let longer = names.push(name);
    assert forall|x: Seq<char>| longer.to_set().contains(x) <==> names.to_set().insert(
        name,
    ).contains(x) by {
        if names.contains(x) {
            let j = choose|j: int| 0 <= j < names.len() && names[j] == x;
            assert(longer[j] == x);
        }
        if x == name {
            assert(longer[names.len() as int] == x);
        }
    }
    assert(longer.to_set() =~= names.to_set().insert(name));
}

/// Inserting pairs adds their names to those that the variables had, and no
/// other.
pub proof fn lemma_with_pairs_names(
    env: Map<Seq<char>, Seq<char>>,
    pairs: Seq<(Seq<char>, Seq<char>)>,
)
    ensures
        with_pairs(env, pairs).dom() == env.dom().union(pair_keys(pairs).to_set()),
    decreases pairs.len(),
{
    if pairs.len() == 0 {
        assert(pair_keys(pairs).to_set() =~= Set::empty());
        assert(with_pairs(env, pairs).dom() =~= env.dom().union(pair_keys(pairs).to_set()));
    } else {
        lemma_with_pairs_names(env, pairs.drop_last());
        assert(pair_keys(pairs) =~= pair_keys(pairs.drop_last()).push(pairs.last().0));
        lemma_names_with_one_more(pair_keys(pairs.drop_last()), pairs.last().0);
        assert(with_pairs(env, pairs).dom() =~= env.dom().union(pair_keys(pairs).to_set()));
    }
}

/// The variables that are loaded from the files are those that the files
/// declare.
pub proof fn lemma_loaded_names(paths: Seq<Seq<char>>, answers: Seq<FileAnswer>, n: nat)
    requires
        loaded(paths, answers, n) is Ok,
    ensures
        loaded(paths, answers, n)->Ok_0.dom() == loaded_names(answers, n),
    decreases n,
{
    if n == 0 {
        assert(loaded(paths, answers, n)->Ok_0.dom() =~= loaded_names(answers, n));
    } else {
        lemma_loaded_names(paths, answers, (n - 1) as nat);
        let before = loaded(paths, answers, (n - 1) as nat)->Ok_0;
        match answers[n - 1] {
            FileAnswer::Pairs(pairs) => {
                lemma_with_pairs_names(before, pairs);
            },
            _ => {},
        }
        assert(loaded(paths, answers, n)->Ok_0.dom() =~= loaded_names(answers, n));
    }
}

/// Where the files load, the names in the answers are those that the bytes of
/// the files declare.
pub proof fn lemma_names_of_files(
    paths: Seq<Seq<char>>,
    files: Seq<EnvFile>,
    answers: Seq<FileAnswer>,
    n: nat,
)
    requires
        forall|i: int| 0 <= i < n ==> answer_fits(file_at(files, i), #[trigger] answers[i]),
        loaded(paths, answers, n) is Ok,
    ensures
        loaded_names(answers, n) == file_names(files, n),
    decreases n,
{
    if n > 0 {
        lemma_names_of_files(paths, files, answers, (n - 1) as nat);
        assert(answer_fits(file_at(files, n - 1), answers[n - 1]));
    }
}

/// The variables of an expanded environment are those that the task declares
/// and those that its environment files declare.
pub proof fn lemma_expanded_names(
    declared: Map<Seq<char>, Seq<char>>,
    paths: Seq<Seq<char>>,
    files: Seq<EnvFile>,
    answers: Seq<FileAnswer>,
)
    requires
        answers_fit(paths.len(), files, answers),
        expanded_env(Ok(declared), paths, answers) is Ok,
    ensures
        expanded_env(Ok(declared), paths, answers)->Ok_0.dom() == declared.dom().union(
            file_names(files, paths.len()),
        ),
{
    lemma_loaded_names(paths, answers, paths.len());
    lemma_names_of_files(paths, files, answers, paths.len());
    let from_files = loaded(paths, answers, paths.len())->Ok_0;
    assert(substituted_all(filled(declared, from_files)).dom() =~= declared.dom().union(
        from_files.dom(),
    ));
}

} // verus!
