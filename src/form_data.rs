//! Readers for the fields of one multipart request.
use vstd::prelude::*;
use vstd::utf8::{decode_utf8, valid_utf8};

verus! {

/// A file field: the name the client gave the file, and the scratch file
/// that holds its bytes until the upload is committed.
#[derive(Clone, Debug)]
pub struct FileField {
    pub file_name: String,
    pub temp_file: String,
}

/// A scalar form field, decoded as text.
#[derive(Clone, Debug)]
pub struct ParamterField {
    pub value: String,
}

/// What one field of a request carried.
#[derive(Clone, Debug)]
pub enum FieldData {
    File(FileField),
    Paramter(ParamterField),
}

/// One field of a request, read to its end.
#[derive(Debug)]
pub struct FieldInfo {
    pub data: FieldData,
    pub key: String,
}

/// How a field is to be read.
#[derive(Clone, Copy, Debug, PartialEq, Eq, Structural)]
pub enum FieldKind {
    File,
    Parameter,
}

/// Why reading a field failed.
#[derive(Clone, Debug)]
pub enum UploadError {
    /// A file field without a filename attribute.
    MissingFilename,
    /// A scalar field whose bytes are not UTF-8.
    DecodeError,
    /// The scratch file could not be created.
    TempFileCreateError(String),
    /// A write into the scratch file failed.
    WriteError(String),
    /// A blocking write was cancelled before it completed.
    Cancelled,
}

impl UploadError {
    /// Errors caused by what the client sent, as opposed to failures of the server.
    pub open spec fn spec_is_client_error(&self) -> bool {
        self is MissingFilename || self is DecodeError
    }

    pub fn is_client_error(&self) -> (r: bool)
        ensures
            r == self.spec_is_client_error(),
    {
        match self {
            UploadError::MissingFilename => true,
            UploadError::DecodeError => true,
            _ => false,
        }
    }
}

/// The bytes of a field's chunks, in the order they arrived.
pub open spec fn flatten(chunks: Seq<Seq<u8>>) -> Seq<u8>
    decreases chunks.len(),
{
    if chunks.len() == 0 {
        Seq::empty()
    } else {
        flatten(chunks.drop_last()) + chunks.last()
    }
}

/// A field with a filename attribute is a file; any other is a scalar parameter.
pub fn classify(filename: &Option<String>) -> (r: FieldKind)
    ensures
        r == (if filename is Some { FieldKind::File } else { FieldKind::Parameter }),
{
    match filename {
        Some(_) => FieldKind::File,
        None => FieldKind::Parameter,
    }
}

/// The key of a field: its name attribute, or the empty string when it has none.
pub fn field_key(name: Option<String>) -> (r: String)
    ensures
        r@ == (match name {
            Some(n) => n@,
            None => Seq::<char>::empty(),
        }),
{
    match name {
        Some(n) => n,
        None => String::new(),
    }
}

/// Joins the chunks of a field into one buffer, keeping their order.
pub fn concat_chunks(chunks: &Vec<Vec<u8>>) -> (r: Vec<u8>)
    ensures
        r@ == flatten(chunks.deep_view()),
{
    let mut all: Vec<u8> = Vec::new();
    let mut i: usize = 0;
    while i < chunks.len()
        invariant
            i <= chunks.len(),
            all@ == flatten(chunks.deep_view().take(i as int)),
        decreases chunks.len() - i,
    {
        let chunk = &chunks[i];
        let mut j: usize = 0;
        let ghost before = all@;
        while j < chunk.len()
            invariant
                j <= chunk.len(),
                chunk == chunks@[i as int],
                all@ == before + chunk@.take(j as int),
            decreases chunk.len() - j,
        {
            all.push(chunk[j]);
            j = j + 1;
            proof {
                assert(chunk@.take(j as int) =~= chunk@.take(j - 1).push(chunk@[j - 1]));
            }
        }
        proof {
            let cs = chunks.deep_view();
            assert(cs.take(i + 1).drop_last() =~= cs.take(i as int));
            assert(chunk@.take(j as int) =~= chunk@);
        }
        i = i + 1;
    }
    proof {
        assert(chunks.deep_view().take(i as int) =~= chunks.deep_view());
    }
    all
}

/// Relies on std's String::from_utf8: it succeeds exactly on valid UTF-8,
/// and then holds the characters that the bytes encode.
#[verifier::external_body]
fn decode_text(bytes: Vec<u8>) -> (r: Option<String>)
    ensures
        r is Some <==> valid_utf8(bytes@),
        r matches Some(s) ==> s@ == decode_utf8(bytes@),
{
    String::from_utf8(bytes).ok()
}

/// Reads a scalar field: its chunks joined in order and decoded as text.
pub fn get_string(chunks: &Vec<Vec<u8>>, key: String) -> (r: Result<FieldInfo, UploadError>)
    ensures
        r is Ok <==> valid_utf8(flatten(chunks.deep_view())),
        r matches Ok(info) ==> info.key == key && (info.data matches FieldData::Paramter(p)
            && p.value@ == decode_utf8(flatten(chunks.deep_view()))),
        r matches Err(e) ==> e is DecodeError,
{
    let all = concat_chunks(chunks);
    match decode_text(all) {
        Some(value) => Ok(FieldInfo { data: FieldData::Paramter(ParamterField { value }), key }),
        None => Err(UploadError::DecodeError),
    }
}

/// A byte count that stops at the largest `u64`.
pub open spec fn capped_count(n: int) -> int {
    if n <= u64::MAX {
        n
    } else {
        u64::MAX as int
    }
}

/// How a blocking write into the scratch file ended.
#[derive(Clone, Debug)]
pub enum WriteOutcome {
    Done,
    Failed(String),
    Canceled,
}

/// The reader of one file field. Bytes are written into a scratch file one
/// chunk at a time: a chunk is handed out for writing only once the write of
/// the chunk before it has completed, so the file holds the chunks in the
/// order in which they arrived.
pub struct FileReceiver {
    file_name: String,
    key: String,
    temp_file: String,
    received: u64,
    writing: bool,
    pending_len: usize,
    pending: Ghost<Seq<u8>>,
    chunks: Ghost<Seq<Seq<u8>>>,
}

impl FileReceiver {
    pub closed spec fn spec_file_name(&self) -> Seq<char> {
        self.file_name@
    }

    pub closed spec fn spec_key(&self) -> Seq<char> {
        self.key@
    }

    pub closed spec fn spec_temp_file(&self) -> Seq<char> {
        self.temp_file@
    }

    /// Whether a chunk has been handed out and its write has not yet been reported.
    pub closed spec fn is_writing(&self) -> bool {
        self.writing
    }

    /// The chunk whose write is in flight.
    pub closed spec fn pending_chunk(&self) -> Seq<u8> {
        self.pending@
    }

    /// The chunks whose writes completed, in order.
    pub closed spec fn written_chunks(&self) -> Seq<Seq<u8>> {
        self.chunks@
    }

    /// What the scratch file holds: the written chunks, one after the other.
    pub open spec fn contents(&self) -> Seq<u8> {
        flatten(self.written_chunks())
    }

    /// The count of bytes received, which stops at the largest `u64`.
    pub closed spec fn spec_received(&self) -> u64 {
        self.received
    }

    pub closed spec fn wf(&self) -> bool {
        &&& self.writing ==> self.pending_len == self.pending@.len()
        &&& self.received as int == capped_count(flatten(self.chunks@).len() as int)
    }

    pub fn received(&self) -> (r: u64)
        ensures
            r == self.spec_received(),
    {
        self.received
    }

    pub fn temp_file(&self) -> (r: &String)
        ensures
            r@ == self.spec_temp_file(),
    {
        &self.temp_file
    }

    /// Hands out a chunk for writing; the receiver then waits for the outcome.
    pub fn begin_write(&mut self, chunk: &Vec<u8>)
        requires
            old(self).wf(),
            !old(self).is_writing(),
        ensures
            final(self).wf(),
            final(self).is_writing(),
            final(self).pending_chunk() == chunk@,
            final(self).written_chunks() == old(self).written_chunks(),
            final(self).spec_received() == old(self).spec_received(),
            final(self).spec_file_name() == old(self).spec_file_name(),
            final(self).spec_key() == old(self).spec_key(),
            final(self).spec_temp_file() == old(self).spec_temp_file(),
    {
        self.writing = true;
        self.pending_len = chunk.len();
        self.pending = Ghost(chunk@);
    }

    /// Takes the outcome of the write in flight. A completed write appends
    /// the chunk to the contents; a failed or cancelled one ends the field
    /// with an error.
    pub fn end_write(&mut self, outcome: WriteOutcome) -> (r: Result<(), UploadError>)
        requires
            old(self).wf(),
            old(self).is_writing(),
        ensures
            final(self).wf(),
            !final(self).is_writing(),
            final(self).spec_file_name() == old(self).spec_file_name(),
            final(self).spec_key() == old(self).spec_key(),
            final(self).spec_temp_file() == old(self).spec_temp_file(),
            match outcome {
                WriteOutcome::Done => {
                    &&& r is Ok
                    &&& final(self).written_chunks() == old(self).written_chunks().push(
                        old(self).pending_chunk(),
                    )
                    &&& final(self).contents() == old(self).contents() + old(self).pending_chunk()
                    &&& final(self).spec_received() as int == capped_count(
                        (old(self).contents().len() + old(self).pending_chunk().len()) as int,
                    )
                },
                WriteOutcome::Failed(e) => {
                    &&& r matches Err(UploadError::WriteError(m)) && m == e
                    &&& final(self).written_chunks() == old(self).written_chunks()
                },
                WriteOutcome::Canceled => {
                    &&& r matches Err(UploadError::Cancelled)
                    &&& final(self).written_chunks() == old(self).written_chunks()
                },
            },
    {
        self.writing = false;
        match outcome {
            WriteOutcome::Done => {
                let ghost cs = self.chunks@;
                proof {
                    assert(cs.push(self.pending@).drop_last() =~= cs);
                }
                self.chunks = Ghost(cs.push(self.pending@));
                let len: u64 = if self.pending_len as u128 <= u64::MAX as u128 {
                    self.pending_len as u64
                } else {
                    u64::MAX
                };
                self.received = self.received.saturating_add(len);
                Ok(())
            },
            WriteOutcome::Failed(e) => Err(UploadError::WriteError(e)),
            WriteOutcome::Canceled => Err(UploadError::Cancelled),
        }
    }

    /// Ends the field once every chunk has been written: the field is a file
    /// under its client-supplied name, held in the scratch file.
    pub fn finish(self) -> (r: FieldInfo)
        requires
            !self.is_writing(),
        ensures
            r.key@ == self.spec_key(),
            r.data matches FieldData::File(f) && f.file_name@ == self.spec_file_name()
                && f.temp_file@ == self.spec_temp_file(),
    {
        FieldInfo {
            data: FieldData::File(FileField { file_name: self.file_name, temp_file: self.temp_file }),
            key: self.key,
        }
    }
}

/// Starts reading a file field. A field without a filename is refused
/// before any scratch file is made; otherwise the returned receiver, with
/// nothing written yet, names the scratch file to create.
pub fn save_file(filename: Option<String>, key: String, temp_file: String) -> (r: Result<
    FileReceiver,
    UploadError,
>)
    ensures
        r is Err <==> filename is None,
        r matches Err(e) ==> e is MissingFilename,
        r matches Ok(rc) ==> {
            &&& rc.wf()
            &&& !rc.is_writing()
            &&& rc.written_chunks() == Seq::<Seq<u8>>::empty()
            &&& rc.spec_received() == 0
            &&& filename matches Some(n) && rc.spec_file_name() == n@
            &&& rc.spec_key() == key@
            &&& rc.spec_temp_file() == temp_file@
        },
{
    match filename {
        None => Err(UploadError::MissingFilename),
        Some(file_name) => Ok(
            FileReceiver {
                file_name,
                key,
                temp_file,
                received: 0,
                writing: false,
                pending_len: 0,
                pending: Ghost(Seq::empty()),
                chunks: Ghost(Seq::empty()),
            },
        ),
    }
}

/// Maps the outcome of creating the scratch file.
pub fn temp_file_created(outcome: Result<(), String>) -> (r: Result<(), UploadError>)
    ensures
        outcome is Ok ==> r is Ok,
        outcome matches Err(e) ==> r matches Err(UploadError::TempFileCreateError(m)) && m == e,
{
    match outcome {
        Ok(()) => Ok(()),
        Err(e) => Err(UploadError::TempFileCreateError(e)),
    }
}

/// The bytes of chunks written one after another are their concatenation.
pub proof fn lemma_flatten_push(chunks: Seq<Seq<u8>>, c: Seq<u8>)
    ensures
        flatten(chunks.push(c)) == flatten(chunks) + c,
{
    assert(chunks.push(c).drop_last() =~= chunks);
}

/// A field whose bytes arrive as three chunks is written as the first,
/// then the second, then the third, never reordered.
pub proof fn law_chunks_kept_in_order(c1: Seq<u8>, c2: Seq<u8>, c3: Seq<u8>)
    ensures
        flatten(seq![c1, c2, c3]) == c1 + c2 + c3,
{
    let e = Seq::<Seq<u8>>::empty();
    lemma_flatten_push(e, c1);
    lemma_flatten_push(e.push(c1), c2);
    lemma_flatten_push(e.push(c1).push(c2), c3);
    assert(seq![c1, c2, c3] =~= e.push(c1).push(c2).push(c3));
    assert(flatten(e) + c1 =~= c1);
}

} // verus!
