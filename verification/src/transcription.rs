//! The speech model: its file, its language, and the text that it yields.
use crate::text::{join_path, path_in, same_text, string_view, text_view};
use crate::transcript;
use vstd::prelude::*;
use vstd::string::*;

verus! {

/// The language to transcribe; `None` lets the model find out.
pub open spec fn language_of(language: Seq<char>) -> Option<Seq<char>> {
    if language == "auto"@ {
        None
    } else {
        Some(language)
    }
}

/// What a transcriber asks of the model.
#[derive(Debug)]
pub struct Transcriber {
    language: Option<String>,
}

impl View for Transcriber {
    type V = Option<Seq<char>>;

    closed spec fn view(&self) -> Option<Seq<char>> {
        string_view(self.language)
    }
}

impl Transcriber {
    pub fn new(language: String) -> (r: Self)
        ensures
            r@ == language_of(language@),
    {
        if same_text(language.as_str(), "auto") {
            Transcriber { language: None }
        } else {
            Transcriber { language: Some(language) }
        }
    }

    /// The language, if it is given.
    pub fn get_language(&self) -> (r: Option<&str>)
        ensures
            text_view(r) == self@,
    {
        match &self.language {
            Some(s) => Some(s.as_str()),
            None => None,
        }
    }

    /// The text of all segments that the model has yielded, without the white space
    /// around it. A segment that cannot be read is `None`.
    pub fn transcribe(&self, segments: &Vec<Option<String>>) -> (r: String)
        ensures
            r@ == crate::text::trim_of(
                transcript::segments_concat(transcript::segment_views(segments@)),
            ),
    {
        transcript::join_segments(segments)
    }
}

/// The file of a model.
pub open spec fn model_file_of(model_size: Seq<char>) -> Seq<char> {
    "ggml-"@ + model_size + ".bin"@
}

/// Where a model can be downloaded.
pub open spec fn model_url_of(model_size: Seq<char>) -> Seq<char> {
    "https://huggingface.co/ggerganov/whisper.cpp/resolve/main/"@ + model_file_of(model_size)
}

/// The file of a model.
pub fn model_file(model_size: &str) -> (r: String)
    ensures
        r@ == model_file_of(model_size@),
{
    "ggml-".to_owned().concat(model_size).concat(".bin")
}

/// Where a model can be downloaded.
pub fn model_url(model_size: &str) -> (r: String)
    ensures
        r@ == model_url_of(model_size@),
{
    "https://huggingface.co/ggerganov/whisper.cpp/resolve/main/".to_owned().concat(
        model_file(model_size).as_str(),
    )
}

/// Where a model is taken from.
#[derive(Debug, Clone, Copy, PartialEq, Eq, Structural)]
pub enum ModelSource {
    /// The directory of models.
    Installed,
    /// The current directory.
    Local,
    /// It is downloaded into the directory of models first.
    Download,
}

/// Where the file of a model is installed: under `.local/share/whisper` at home.
pub open spec fn model_path_of(home: Seq<char>, model_size: Seq<char>) -> Seq<char> {
    path_in(path_in(home, ".local/share/whisper"@), model_file_of(model_size))
}

/// Where the file of a model is installed.
pub fn model_path(home: &str, model_size: &str) -> (r: String)
    ensures
        r@ == model_path_of(home@, model_size@),
{
    let dir = join_path(home, ".local/share/whisper");
    join_path(dir.as_str(), model_file(model_size).as_str())
}

/// Where a model is taken from, by where there is a file of it: the path of its file,
/// and whether that is installed, lies in the current directory, or is yet to be
/// downloaded to where models are installed.
pub fn get_model_path(home: &str, model_size: &str, installed: bool, local: bool) -> (r: (
    String,
    ModelSource,
))
    ensures
        r.1 == ModelSource::Installed <==> installed,
        r.1 == ModelSource::Local <==> !installed && local,
        r.1 == ModelSource::Download <==> !installed && !local,
        r.0@ == if r.1 == ModelSource::Local {
            model_file_of(model_size@)
        } else {
            model_path_of(home@, model_size@)
        },
{
    if installed {
        (model_path(home, model_size), ModelSource::Installed)
    } else if local {
        (model_file(model_size), ModelSource::Local)
    } else {
        (model_path(home, model_size), ModelSource::Download)
    }
}

/// A model lies under the home directory, where it can also be put by hand.
pub proof fn lemma_models_lie_at_home(home: Seq<char>, model_size: Seq<char>)
    requires
        home.len() > 0,
        home.last() != '/',
    ensures
        model_path_of(home, model_size) == home + "/.local/share/whisper/ggml-"@ + model_size
            + ".bin"@,
{
    reveal_strlit("/");
    reveal_strlit(".local/share/whisper");
    reveal_strlit("ggml-");
    reveal_strlit(".bin");
    reveal_strlit("/.local/share/whisper/ggml-");
    let dir = path_in(home, ".local/share/whisper"@);
    assert(dir.last() == 'r');
    assert(model_path_of(home, model_size) =~= home + "/.local/share/whisper/ggml-"@ + model_size
        + ".bin"@);
}

/// Why a model could not be downloaded.
pub open spec fn download_error_of(
    model_size: Seq<char>,
    success: bool,
    status: Seq<char>,
    length: Option<u64>,
) -> Option<Seq<char>> {
    if !success {
        Some(
            "Failed to download model: HTTP "@ + status + ". Model '"@ + model_size
                + "' may not exist."@,
        )
    } else if length is None {
        Some("Failed to get content length"@)
    } else {
        None
    }
}

/// Judges the answer to a download: its status, in words, and the length it gives.
pub fn check_download(
    model_size: &str,
    success: bool,
    status: &str,
    length: Option<u64>,
) -> (r: Result<u64, String>)
    ensures
        r is Ok <==> download_error_of(model_size@, success, status@, length) is None,
        r matches Ok(n) ==> length == Some(n),
        r matches Err(e) ==> download_error_of(model_size@, success, status@, length) == Some(e@),
{
    if !success {
        return Err(
            "Failed to download model: HTTP ".to_owned().concat(status).concat(
                ". Model '",
            ).concat(model_size).concat("' may not exist."),
        );
    }
    match length {
        Some(n) => Ok(n),
        None => Err("Failed to get content length".to_owned()),
    }
}

/// Every language but `auto` is asked for as it is, and `auto` stands for none.
pub proof fn lemma_languages(language: Seq<char>)
    ensures
        language_of(language) is None <==> language == "auto"@,
        language != "auto"@ ==> language_of(language) == Some(language),
{
}

/// The file of a model holds its size, is what its address ends with, and lies in one
/// directory for all sizes.
pub proof fn lemma_files_of_models(home: Seq<char>, a: Seq<char>, b: Seq<char>)
    ensures
        model_file_of(a) == "ggml-"@ + a + ".bin"@,
        model_file_of(a) == model_file_of(b) ==> a == b,
        model_file_of(a).is_suffix_of(model_url_of(a)),
        model_url_of(a) == "https://huggingface.co/ggerganov/whisper.cpp/resolve/main/"@
            + model_file_of(a),
        model_file_of(a).is_suffix_of(model_path_of(home, a)),
        home.is_prefix_of(model_path_of(home, a)),
{
    let f = model_file_of(a);
    let url = model_url_of(a);
    let path = model_path_of(home, a);
    let n = "ggml-"@.len() as int;
    let m = ".bin"@.len() as int;
    assert(f.subrange(n, f.len() - m) =~= a);
    let g = model_file_of(b);
    assert(g.subrange(n, g.len() - m) =~= b);
    assert(f =~= url.subrange(url.len() - f.len(), url.len() as int));
    assert(f =~= path.subrange(path.len() - f.len(), path.len() as int));
    assert(home =~= path.subrange(0, home.len() as int));
}

/// A home directory that is written with a slash behind it is the same directory.
pub proof fn lemma_slash_behind_home(home: Seq<char>, model_size: Seq<char>)
    requires
        home.len() > 0,
        home.last() != '/',
    ensures
        model_path_of(home.push('/'), model_size) == model_path_of(home, model_size),
{
    reveal_strlit("/");
    assert(home.push('/') =~= home + "/"@);
}

/// A download counts exactly where the answer is a good one that gives its length. The
/// error about another one names its status and the model.
pub proof fn lemma_when_a_download_counts(
    model_size: Seq<char>,
    success: bool,
    status: Seq<char>,
    length: Option<u64>,
)
    ensures
        download_error_of(model_size, success, status, length) is None <==> success && length
            is Some,
        !success ==> ({
            let e = download_error_of(model_size, success, status, length)->0;
            let i = "Failed to download model: HTTP "@.len() as int;
            let j = i + status.len() + ". Model '"@.len();
            crate::text::occurs_at(e, status, i) && crate::text::occurs_at(e, model_size, j)
        }),
{
    if !success {
        let e = download_error_of(model_size, success, status, length)->0;
        let i = "Failed to download model: HTTP "@.len() as int;
        let j = i + status.len() + ". Model '"@.len();
        assert(e.subrange(i, i + status.len()) =~= status);
        assert(e.subrange(j, j + model_size.len()) =~= model_size);
    }
}

} // verus!
