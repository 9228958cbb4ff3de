use vstd::prelude::*;
use vstd::string::StringExecFns;

verus! {

/// Settles one poll of a background task from what taking its result
/// gave: nothing when there was no task; the value, with no task left, when
/// it had finished; or the task to keep, and no value, while it runs.
pub fn try_poll<T, P>(taken: Option<Result<T, P>>) -> (r: (Option<T>, Option<P>))
    ensures
        taken is None ==> r.0 is None && r.1 is None,
        taken matches Some(Ok(x)) ==> r.0 == Some(x) && r.1 is None,
        taken matches Some(Err(p)) ==> r.0 is None && r.1 == Some(p),
{
    match taken {
        None => (None, None),
        Some(Ok(x)) => (Some(x), None),
        Some(Err(p)) => (None, Some(p)),
    }
}

/// A kind of saved file, with the extension its files carry.
pub trait Extension {
    /// The extension of files of this kind.
    fn extension() -> String;
}

/// The pattern offered by the file dialogs for models with extension
/// `ext`: `ext.ron`.
pub fn model_file_pattern(ext: &str) -> (r: String)
    ensures
        r@ == ext@ + ".ron"@,
{
    let mut r = String::from_str(ext);
    r.append(".ron");
    r
}

/// Why a save or a load could not start.
#[derive(Clone, Copy, PartialEq, Eq, Debug)]
pub enum FileError {
    ReadFileNotSet,
    SaveFileNotSet,
}

impl FileError {
    /// The message shown to the user.
    pub fn message(&self) -> (s: &'static str)
        ensures
            *self == FileError::ReadFileNotSet ==> s@ == "Read file not set"@,
            *self == FileError::SaveFileNotSet ==> s@ == "Save file not set"@,
    {
        match self {
            FileError::ReadFileNotSet => "Read file not set",
            FileError::SaveFileNotSet => "Save file not set",
        }
    }
}

/// Where a load takes its bytes from.
#[derive(Clone, Copy, PartialEq, Eq, Debug)]
pub enum ReadSource {
    /// The bytes of the last successful load.
    Cache,
    /// The chosen read file.
    File,
}

/// The files a model is saved to and loaded from, and the bytes of the last
/// successful load; `P` is the handle of a chosen file.
#[derive(Debug)]
pub struct FileManager<P> {
    name: String,
    read: Option<P>,
    save: Option<P>,
    cache: Option<Vec<u8>>,
}

impl<P> FileManager<P> {
    pub closed spec fn spec_name(&self) -> Seq<char> {
        self.name@
    }

    pub closed spec fn read_file(&self) -> Option<P> {
        self.read
    }

    pub closed spec fn save_file(&self) -> Option<P> {
        self.save
    }

    pub closed spec fn cached(&self) -> Option<Seq<u8>> {
        match self.cache {
            Some(c) => Some(c@),
            None => None,
        }
    }

    /// Where the next load of this manager reads from.
    pub open spec fn load_source(&self) -> Result<ReadSource, FileError> {
        read_source(self.read_file() is Some, self.cached() is Some)
    }

    /// This manager once `file` is chosen to read from.
    pub closed spec fn chosen_read(self, file: P) -> Self {
        FileManager { read: Some(file), cache: None, ..self }
    }

    /// This manager once `file` is chosen to save to.
    pub closed spec fn chosen_save(self, file: P) -> Self {
        FileManager { save: Some(file), ..self }
    }

    /// This manager once the bytes `data` of a load were accepted.
    pub closed spec fn with_loaded(self, data: Vec<u8>) -> Self {
        FileManager { cache: Some(data), ..self }
    }

    /// This manager with its cached bytes dropped.
    pub closed spec fn refreshed(self) -> Self {
        FileManager { cache: None, ..self }
    }

    /// A manager with the given title, no files and nothing cached.
    pub fn new(name: &str) -> (m: Self)
        ensures
            m.spec_name() == name@,
            m.read_file() is None,
            m.save_file() is None,
            m.cached() is None,
    {
        FileManager { name: String::from_str(name), read: None, save: None, cache: None }
    }

    /// The manager for the model state.
    pub fn default_state() -> (m: Self)
        ensures
            m.spec_name() == "Save state"@,
            m.read_file() is None,
            m.save_file() is None,
            m.cached() is None,
    {
        Self::new("Save state")
    }

    /// The manager for the checkpoints.
    pub fn default_check_points() -> (m: Self)
        ensures
            m.spec_name() == "Save checkpoints"@,
            m.read_file() is None,
            m.save_file() is None,
            m.cached() is None,
    {
        Self::new("Save checkpoints")
    }

    /// The title shown for this manager.
    pub fn name(&self) -> (s: &str)
        ensures
            s@ == self.spec_name(),
    {
        self.name.as_str()
    }

    /// The chosen read file, if any.
    pub fn read(&self) -> (r: &Option<P>)
        ensures
            *r == self.read_file(),
    {
        &self.read
    }

    /// The chosen save file, if any.
    pub fn save(&self) -> (r: &Option<P>)
        ensures
            *r == self.save_file(),
    {
        &self.save
    }

    /// The bytes of the last successful load, if kept.
    pub fn cache(&self) -> (r: Option<&Vec<u8>>)
        ensures
            match r {
                Some(c) => self.cached() == Some(c@),
                None => self.cached() is None,
            },
    {
        match &self.cache {
            Some(c) => Some(c),
            None => None,
        }
    }

    /// Where a load reads from: the cached bytes if there are any, else the
    /// chosen read file; an error when no read file is chosen.
    pub fn start_read(&self) -> (r: Result<ReadSource, FileError>)
        ensures
            r == self.load_source(),
            self.read_file() is None ==> r == Err::<ReadSource, FileError>(
                FileError::ReadFileNotSet,
            ),
            self.read_file() is Some && self.cached() is Some ==> r == Ok::<ReadSource, FileError>(
                ReadSource::Cache,
            ),
            self.read_file() is Some && self.cached() is None ==> r == Ok::<ReadSource, FileError>(
                ReadSource::File,
            ),
    {
        if self.read.is_none() {
            return Err(FileError::ReadFileNotSet);
        }
        if self.cache.is_some() {
            Ok(ReadSource::Cache)
        } else {
            Ok(ReadSource::File)
        }
    }

    /// Whether a save can start: it needs a chosen save file.
    pub fn start_write(&self) -> (r: Result<(), FileError>)
        ensures
            self.save_file() is None <==> r == Err::<(), FileError>(FileError::SaveFileNotSet),
            self.save_file() is Some <==> r is Ok,
    {
        if self.save.is_none() {
            Err(FileError::SaveFileNotSet)
        } else {
            Ok(())
        }
    }

    /// Keeps the bytes of a load whose content was accepted.
    pub fn loaded(&mut self, data: Vec<u8>)
        ensures
            *final(self) == old(self).with_loaded(data),
            final(self).cached() == Some(data@),
            final(self).read_file() == old(self).read_file(),
            final(self).save_file() == old(self).save_file(),
            final(self).spec_name() == old(self).spec_name(),
    {
        self.cache = Some(data);
    }

    /// Takes a newly chosen read file; the cached bytes belong to the old
    /// one and are dropped.
    pub fn update_read(&mut self, file: P)
        ensures
            *final(self) == old(self).chosen_read(file),
            final(self).read_file() == Some(file),
            final(self).cached() is None,
            final(self).save_file() == old(self).save_file(),
            final(self).spec_name() == old(self).spec_name(),
    {
        self.read = Some(file);
        self.cache = None;
    }

    /// Takes a newly chosen save file.
    pub fn update_save(&mut self, file: P)
        ensures
            *final(self) == old(self).chosen_save(file),
            final(self).save_file() == Some(file),
            final(self).read_file() == old(self).read_file(),
            final(self).cached() == old(self).cached(),
            final(self).spec_name() == old(self).spec_name(),
    {
        self.save = Some(file);
    }

    /// Drops the cached bytes, so that the next load reads the file again.
    pub fn refresh_cache(&mut self)
        ensures
            *final(self) == old(self).refreshed(),
            final(self).cached() is None,
            final(self).read_file() == old(self).read_file(),
            final(self).save_file() == old(self).save_file(),
            final(self).spec_name() == old(self).spec_name(),
    {
        self.cache = None;
    }
}

/// What is saved of a file manager: its title and chosen files.
#[derive(Clone, Debug)]
pub struct FileStorage<P> {
    pub name: String,
    pub read: Option<P>,
    pub save: Option<P>,
}

impl<P> FileManager<P> {
    /// A manager restored from what was saved, with nothing cached.
    pub fn from_storage(f: FileStorage<P>) -> (m: Self)
        ensures
            m.spec_name() == f.name@,
            m.read_file() == f.read,
            m.save_file() == f.save,
            m.cached() is None,
    {
        FileManager { name: f.name, read: f.read, save: f.save, cache: None }
    }

    /// What is saved of this manager.
    pub fn to_storage(&self) -> (f: FileStorage<P>)
        where P: Clone,
        ensures
            f.name@ == self.spec_name(),
            cloned_file(self.read_file(), f.read),
            cloned_file(self.save_file(), f.save),
    {
        let read = match &self.read {
            Some(p) => Some(p.clone()),
            None => None,
        };
        let save = match &self.save {
            Some(p) => Some(p.clone()),
            None => None,
        };
        FileStorage { name: self.name.clone(), read, save }
    }

    /// A copy for saving the application: same title and files, no
    /// pending work and nothing cached.
    pub fn clone_for_save(&self) -> (m: Self)
        where P: Clone,
        ensures
            m.spec_name() == self.spec_name(),
            cloned_file(self.read_file(), m.read_file()),
            cloned_file(self.save_file(), m.save_file()),
            m.cached() is None,
    {
        Self::from_storage(self.to_storage())
    }
}

/// `copy` holds a clone of the file `original` holds, or no file where it
/// holds none.
pub open spec fn cloned_file<P: Clone>(original: Option<P>, copy: Option<P>) -> bool {
    match (original, copy) {
        (Some(a), Some(b)) => cloned::<P>(a, b),
        (None, None) => true,
        _ => false,
    }
}

/// Where a load reads from, given whether a read file is chosen and whether
/// bytes are cached.
pub open spec fn read_source(has_file: bool, has_cache: bool) -> Result<ReadSource, FileError> {
    if !has_file {
        Err(FileError::ReadFileNotSet)
    } else if has_cache {
        Ok(ReadSource::Cache)
    } else {
        Ok(ReadSource::File)
    }
}

/// After a new read file is chosen the next load reads that file; once a
/// load was accepted the following loads are served from the cache, until
/// the cache is refreshed (then the chosen file is read again) or another
/// file is chosen.  Choosing a save file does not change where loads read
/// from.
pub proof fn new_read_file_bypasses_cache<P>(m: FileManager<P>, file: P, data: Vec<u8>)
    ensures
        m.chosen_read(file).load_source() == Ok::<ReadSource, FileError>(ReadSource::File),
        m.chosen_read(file).with_loaded(data).load_source() == Ok::<ReadSource, FileError>(
            ReadSource::Cache,
        ),
        m.read_file() is Some ==> m.with_loaded(data).load_source() == Ok::<
            ReadSource,
            FileError,
        >(ReadSource::Cache),
        m.with_loaded(data).refreshed().load_source() == (if m.read_file() is Some {
            Ok::<ReadSource, FileError>(ReadSource::File)
        } else {
            Err::<ReadSource, FileError>(FileError::ReadFileNotSet)
        }),
        m.chosen_save(file).load_source() == m.load_source(),
{
}

} // verus!
