//! The whisper models the application offers: the catalogue shown to the
//! user, where a model's file lives, and where it is downloaded from.

use vstd::prelude::*;
use crate::text::{push_char, push_text, same_text};

verus! {

/// The folder of model files, inside the folder of the executable.
pub const MODELS_FOLDER: &'static str = "models";

/// Where the model files are downloaded from.
pub const DOWNLOAD_BASE_URL: &'static str = "https://huggingface.co/ggerganov/whisper.cpp/resolve/main/";

/// Message for a model id that is not in the catalogue.
pub const UNKNOWN_MODEL: &'static str = "Unknown model";

/// What the catalogue says of one model.
pub struct ModelDescription {
    pub id: Seq<char>,
    pub name: Seq<char>,
    pub size: Seq<char>,
    pub speed: Seq<char>,
    pub accuracy: Seq<char>,
}

/// One entry of the model catalogue.
pub struct ModelInfo {
    pub id: String,
    pub name: String,
    pub size: String,
    pub speed: String,
    pub accuracy: String,
}

impl View for ModelInfo {
    type V = ModelDescription;

    open spec fn view(&self) -> ModelDescription {
        ModelDescription {
            id: self.id@,
            name: self.name@,
            size: self.size@,
            speed: self.speed@,
            accuracy: self.accuracy@,
        }
    }
}

/// A catalogue entry from its five texts.
pub open spec fn description(
    id: &str,
    name: &str,
    size: &str,
    speed: &str,
    accuracy: &str,
) -> ModelDescription {
    ModelDescription { id: id@, name: name@, size: size@, speed: speed@, accuracy: accuracy@ }
}

/// The models offered, in the order they are shown.
pub open spec fn catalog() -> Seq<ModelDescription> {
    seq![
        description("base.en", "Base English", "142 MB", "Fast", "Good"),
        description("small.en", "Small English", "466 MB", "Medium", "Better"),
        description("medium.en", "Medium English", "1.5 GB", "Slow", "Great"),
        description("large-v3-turbo", "Large V3 Turbo", "1.6 GB", "Medium", "Best"),
    ]
}

/// Whether `id` names a model of the catalogue.
pub open spec fn in_catalog(id: Seq<char>) -> bool {
    exists|i: int| 0 <= i < catalog().len() && (#[trigger] catalog()[i]).id == id
}

/// The file name of model `id`: `ggml-<id>.bin`.
pub open spec fn model_file_name_of(id: Seq<char>) -> Seq<char> {
    "ggml-"@ + id + ".bin"@
}

/// The path of model `id`'s file in the `models` folder next to the
/// executable, which lies in `exe_dir`; `separator` is the platform's path
/// separator.
pub open spec fn model_path_of(exe_dir: Seq<char>, separator: char, id: Seq<char>) -> Seq<char> {
    exe_dir + seq![separator] + MODELS_FOLDER@ + seq![separator] + model_file_name_of(id)
}

/// Where model `id` is downloaded from, or why it cannot be.
pub open spec fn download_url_of(id: Seq<char>) -> Result<Seq<char>, Seq<char>> {
    if in_catalog(id) {
        Ok(DOWNLOAD_BASE_URL@ + model_file_name_of(id))
    } else {
        Err(UNKNOWN_MODEL@)
    }
}

fn entry(id: &str, name: &str, size: &str, speed: &str, accuracy: &str) -> (m: ModelInfo)
    ensures
        m@ == description(id, name, size, speed, accuracy),
{
    ModelInfo {
        id: id.to_owned(),
        name: name.to_owned(),
        size: size.to_owned(),
        speed: speed.to_owned(),
        accuracy: accuracy.to_owned(),
    }
}

/// The models offered, in the order they are shown.
pub fn model_catalog() -> (models: Vec<ModelInfo>)
    ensures
        models@.map_values(|m: ModelInfo| m@) == catalog(),
        models@.len() == 4,
        models@[0]@ == (ModelDescription {
            id: "base.en"@,
            name: "Base English"@,
            size: "142 MB"@,
            speed: "Fast"@,
            accuracy: "Good"@,
        }),
        models@[1]@ == (ModelDescription {
            id: "small.en"@,
            name: "Small English"@,
            size: "466 MB"@,
            speed: "Medium"@,
            accuracy: "Better"@,
        }),
        models@[2]@ == (ModelDescription {
            id: "medium.en"@,
            name: "Medium English"@,
            size: "1.5 GB"@,
            speed: "Slow"@,
            accuracy: "Great"@,
        }),
        models@[3]@ == (ModelDescription {
            id: "large-v3-turbo"@,
            name: "Large V3 Turbo"@,
            size: "1.6 GB"@,
            speed: "Medium"@,
            accuracy: "Best"@,
        }),
{
    let mut models: Vec<ModelInfo> = Vec::new();
    models.push(entry("base.en", "Base English", "142 MB", "Fast", "Good"));
    models.push(entry("small.en", "Small English", "466 MB", "Medium", "Better"));
    models.push(entry("medium.en", "Medium English", "1.5 GB", "Slow", "Great"));
    models.push(entry("large-v3-turbo", "Large V3 Turbo", "1.6 GB", "Medium", "Best"));
    assert(models@.map_values(|m: ModelInfo| m@) =~= catalog());
    models
}

/// The file name of model `id`: `ggml-<id>.bin`.
pub fn model_file_name(id: &str) -> (name: String)
    ensures
        name@ == model_file_name_of(id@),
{
    let mut name = String::new();
    push_text(&mut name, "ggml-");
    push_text(&mut name, id);
    push_text(&mut name, ".bin");
    name
}

/// The path of model `id`'s file in the `models` folder next to the
/// executable, which lies in `exe_dir`; `separator` is the platform's path
/// separator.
pub fn model_path(exe_dir: &str, separator: char, id: &str) -> (path: String)
    ensures
        path@ == model_path_of(exe_dir@, separator, id@),
{
    let mut path = String::new();
    push_text(&mut path, exe_dir);
    push_char(&mut path, separator);
    push_text(&mut path, MODELS_FOLDER);
    push_char(&mut path, separator);
    let name = model_file_name(id);
    push_text(&mut path, name.as_str());
    assert(path@ =~= model_path_of(exe_dir@, separator, id@));
    path
}

/// Whether `id` names a model of the catalogue.
pub fn is_known_model(id: &str) -> (known: bool)
    ensures
        known == in_catalog(id@),
{
    let models = model_catalog();
    let mut i: usize = 0;
    while i < models.len()
        invariant
            models@.map_values(|m: ModelInfo| m@) == catalog(),
            i <= models.len(),
            forall|j: int| 0 <= j < i ==> catalog()[j].id != id@,
        decreases models.len() - i,
    {
        assert(models@.map_values(|m: ModelInfo| m@)[i as int] == models@[i as int]@);
        if same_text(models[i].id.as_str(), id) {
            assert(catalog()[i as int].id == id@);
            return true;
        }
        i = i + 1;
    }
    assert(models@.map_values(|m: ModelInfo| m@).len() == models@.len());
    false
}

/// Where model `id` is downloaded from; `Err("Unknown model")` for an id
/// that is not in the catalogue.
pub fn model_download_url(id: &str) -> (url: Result<String, String>)
    ensures
        match url {
            Ok(u) => download_url_of(id@) == Ok::<Seq<char>, Seq<char>>(u@),
            Err(e) => download_url_of(id@) == Err::<Seq<char>, Seq<char>>(e@),
        },
{
    if is_known_model(id) {
        let mut u = String::new();
        push_text(&mut u, DOWNLOAD_BASE_URL);
        let name = model_file_name(id);
        push_text(&mut u, name.as_str());
        assert(u@ =~= DOWNLOAD_BASE_URL@ + model_file_name_of(id@));
        Ok(u)
    } else {
        Err(UNKNOWN_MODEL.to_owned())
    }
}

/// The catalogue, entry by entry: ids, names, sizes, speeds and accuracies
/// of the four models offered, in the order they are shown.
pub proof fn lemma_catalog_table()
    ensures
        catalog().len() == 4,
        catalog()[0] == (ModelDescription {
            id: "base.en"@,
            name: "Base English"@,
            size: "142 MB"@,
            speed: "Fast"@,
            accuracy: "Good"@,
        }),
        catalog()[1] == (ModelDescription {
            id: "small.en"@,
            name: "Small English"@,
            size: "466 MB"@,
            speed: "Medium"@,
            accuracy: "Better"@,
        }),
        catalog()[2] == (ModelDescription {
            id: "medium.en"@,
            name: "Medium English"@,
            size: "1.5 GB"@,
            speed: "Slow"@,
            accuracy: "Great"@,
        }),
        catalog()[3] == (ModelDescription {
            id: "large-v3-turbo"@,
            name: "Large V3 Turbo"@,
            size: "1.6 GB"@,
            speed: "Medium"@,
            accuracy: "Best"@,
        }),
{
}

/// Every model the catalogue lists can be downloaded, and only those: the
/// download of `id` succeeds exactly when the catalogue has a model `id`, and
/// it comes from the base URL followed by the file name that the model's
/// path ends with.
pub proof fn lemma_catalog_models_download(exe_dir: Seq<char>, separator: char, id: Seq<char>)
    ensures
        download_url_of(id) is Ok <==> in_catalog(id),
        forall|i: int|
            0 <= i < catalog().len() ==> download_url_of(#[trigger] catalog()[i].id) == Ok::<
                Seq<char>,
                Seq<char>,
            >(DOWNLOAD_BASE_URL@ + model_file_name_of(catalog()[i].id)),
        model_path_of(exe_dir, separator, id).subrange(
            model_path_of(exe_dir, separator, id).len() - model_file_name_of(id).len(),
            model_path_of(exe_dir, separator, id).len() as int,
        ) == model_file_name_of(id),
{
    assert forall|i: int| 0 <= i < catalog().len() implies download_url_of(
        #[trigger] catalog()[i].id,
    ) == Ok::<Seq<char>, Seq<char>>(DOWNLOAD_BASE_URL@ + model_file_name_of(catalog()[i].id)) by {
        assert(in_catalog(catalog()[i].id));
    }
    assert(model_path_of(exe_dir, separator, id).subrange(
        model_path_of(exe_dir, separator, id).len() - model_file_name_of(id).len(),
        model_path_of(exe_dir, separator, id).len() as int,
    ) =~= model_file_name_of(id));
}

} // verus!
