//! One request's fields: their assembly, the checks on the shared secret
//! and the file field, and the plan for committing the file.
use vstd::prelude::*;

use crate::config::Config;
use crate::form_data::{FieldData, FieldInfo, FileField};

verus! {

/// The fields of one request as a map from key to data: each field is
/// inserted in arrival order, so a later field replaces an earlier one with
/// the same key.
pub open spec fn assembled(fields: Seq<FieldInfo>) -> Map<Seq<char>, FieldData>
    decreases fields.len(),
{
    if fields.len() == 0 {
        Map::empty()
    } else {
        assembled(fields.drop_last()).insert(fields.last().key@, fields.last().data)
    }
}

pub open spec fn keys_unique(fields: Seq<FieldInfo>) -> bool {
    forall|i: int, j: int|
        0 <= i < fields.len() && 0 <= j < fields.len() && i != j ==> fields[i].key@
            != fields[j].key@
}

proof fn lemma_assembled_dom(fields: Seq<FieldInfo>, k: Seq<char>)
    ensures
        assembled(fields).contains_key(k) <==> exists|i: int|
            0 <= i < fields.len() && fields[i].key@ == k,
    decreases fields.len(),
{
    if fields.len() > 0 {
        let init = fields.drop_last();
        lemma_assembled_dom(init, k);
        if assembled(init).contains_key(k) {
            let i = choose|i: int| 0 <= i < init.len() && init[i].key@ == k;
            assert(fields[i].key@ == k);
        }
        if exists|i: int| 0 <= i < fields.len() && fields[i].key@ == k {
            let i = choose|i: int| 0 <= i < fields.len() && fields[i].key@ == k;
            if i < init.len() {
                assert(init[i].key@ == k);
            }
        }
    }
}

proof fn lemma_assembled_value(fields: Seq<FieldInfo>, i: int)
    requires
        keys_unique(fields),
        0 <= i < fields.len(),
    ensures
        assembled(fields).contains_key(fields[i].key@),
        assembled(fields)[fields[i].key@] == fields[i].data,
    decreases fields.len(),
{
    let init = fields.drop_last();
    if i < fields.len() - 1 {
        assert(keys_unique(init));
        lemma_assembled_value(init, i);
        assert(init[i] == fields[i]);
        assert(fields.last().key@ != fields[i].key@);
    }
}

proof fn lemma_assembled_update(fields: Seq<FieldInfo>, j: int, x: FieldInfo)
    requires
        keys_unique(fields),
        0 <= j < fields.len(),
        fields[j].key@ == x.key@,
    ensures
        keys_unique(fields.update(j, x)),
        assembled(fields.update(j, x)) =~= assembled(fields).insert(x.key@, x.data),
{
    let u = fields.update(j, x);
    assert(keys_unique(u));
    assert forall|k: Seq<char>|
        assembled(u).contains_key(k) <==> assembled(fields).insert(x.key@, x.data).contains_key(
            k,
        ) by {
        lemma_assembled_dom(u, k);
        lemma_assembled_dom(fields, k);
        if exists|i: int| 0 <= i < fields.len() && fields[i].key@ == k {
            let i = choose|i: int| 0 <= i < fields.len() && fields[i].key@ == k;
            assert(u[i].key@ == k);
        }
        if exists|i: int| 0 <= i < u.len() && u[i].key@ == k {
            let i = choose|i: int| 0 <= i < u.len() && u[i].key@ == k;
            assert(fields[i].key@ == k);
        }
    }
    assert forall|k: Seq<char>| #[trigger]
        assembled(u).contains_key(k) implies assembled(u)[k] == assembled(fields).insert(
            x.key@,
            x.data,
        )[k] by {
        lemma_assembled_dom(u, k);
        let i = choose|i: int| 0 <= i < u.len() && u[i].key@ == k;
        lemma_assembled_value(u, i);
        if i != j {
            lemma_assembled_value(fields, i);
        }
    }
}

/// The fields of one request, one entry per key.
pub struct UploadRequest {
    fields: Vec<FieldInfo>,
}

impl View for UploadRequest {
    type V = Map<Seq<char>, FieldData>;

    closed spec fn view(&self) -> Map<Seq<char>, FieldData> {
        assembled(self.fields@)
    }
}

impl UploadRequest {
    pub closed spec fn wf(&self) -> bool {
        keys_unique(self.fields@)
    }

    pub fn new() -> (r: UploadRequest)
        ensures
            r.wf(),
            r@ == Map::<Seq<char>, FieldData>::empty(),
    {
        UploadRequest { fields: Vec::new() }
    }

    /// Adds a field; it replaces any earlier field with the same key.
    pub fn insert(&mut self, field: FieldInfo)
        requires
            old(self).wf(),
        ensures
            final(self).wf(),
            final(self)@ == old(self)@.insert(field.key@, field.data),
    {
        match self.position(&field.key) {
            Some(j) => {
                proof {
                    lemma_assembled_update(self.fields@, j as int, field);
                }
                self.fields.set(j, field);
            },
            None => {
                let ghost old_fields = self.fields@;
                self.fields.push(field);
                proof {
                    assert(self.fields@.drop_last() =~= old_fields);
                }
            },
        }
    }

    fn position(&self, key: &String) -> (r: Option<usize>)
        ensures
            r matches Some(j) ==> j < self.fields@.len() && self.fields@[j as int].key@ == key@,
            r is None ==> forall|i: int|
                0 <= i < self.fields@.len() ==> self.fields@[i].key@ != key@,
    {
        let mut i: usize = 0;
        while i < self.fields.len()
            invariant
                i <= self.fields@.len(),
                forall|k: int| 0 <= k < i ==> self.fields@[k].key@ != key@,
            decreases self.fields@.len() - i,
        {
            if self.fields[i].key == *key {
                return Some(i);
            }
            i = i + 1;
        }
        None
    }

    /// The data of the field with the given key, if there is one.
    pub fn get(&self, key: &String) -> (r: Option<&FieldData>)
        requires
            self.wf(),
        ensures
            r is Some <==> self@.contains_key(key@),
            r matches Some(d) ==> *d == self@[key@],
    {
        proof {
            lemma_assembled_dom(self.fields@, key@);
        }
        match self.position(key) {
            Some(j) => {
                proof {
                    lemma_assembled_value(self.fields@, j as int);
                }
                Some(&self.fields[j].data)
            },
            None => None,
        }
    }
}

/// Collects the fields of one request, in arrival order, into one map.
pub fn assemble(fields: Vec<FieldInfo>) -> (r: UploadRequest)
    ensures
        r.wf(),
        r@ == assembled(fields@),
{
    let mut req = UploadRequest::new();
    let mut rest = fields;
    let ghost all = fields@;
    let ghost mut n: int = 0;
    while rest.len() > 0
        invariant
            req.wf(),
            0 <= n <= all.len(),
            rest@ == all.skip(n),
            req@ == assembled(all.take(n)),
        decreases rest@.len(),
    {
        let f = rest.remove(0);
        proof {
            assert(all.take(n + 1).drop_last() =~= all.take(n));
            assert(all.take(n + 1).last() == f);
            assert(rest@ =~= all.skip(n + 1));
            n = n + 1;
        }
        req.insert(f);
    }
    proof {
        assert(all.take(n) =~= all);
    }
    req
}

/// The key of the shared-secret field.
pub open spec fn pwd_key() -> Seq<char> {
    seq!['p', 'w', 'd']
}

/// The key of the file field.
pub open spec fn file_key() -> Seq<char> {
    seq!['f', 'i', 'l', 'e']
}

/// Why a request was turned down before anything was committed.
#[derive(Clone, Copy, Debug, PartialEq, Eq, Structural)]
pub enum Rejection {
    EnterPassword,
    IncorrectPassword,
    SelectFile,
}

impl Rejection {
    pub open spec fn spec_message(&self) -> Seq<char> {
        match self {
            Rejection::EnterPassword => "please enter a password"@,
            Rejection::IncorrectPassword => "incorrect password"@,
            Rejection::SelectFile => "please select a file"@,
        }
    }

    /// The text shown to the user.
    pub fn message(&self) -> (r: String)
        ensures
            r@ == self.spec_message(),
    {
        match self {
            Rejection::EnterPassword => String::from_str("please enter a password"),
            Rejection::IncorrectPassword => String::from_str("incorrect password"),
            Rejection::SelectFile => String::from_str("please select a file"),
        }
    }
}

/// The outcome of the secret check alone.
pub open spec fn password_check(m: Map<Seq<char>, FieldData>, secret: Seq<char>) -> Option<
    Rejection,
> {
    if m.contains_key(pwd_key()) && m[pwd_key()] is Paramter {
        if m[pwd_key()]->Paramter_0.value@ == secret {
            None
        } else {
            Some(Rejection::IncorrectPassword)
        }
    } else {
        Some(Rejection::EnterPassword)
    }
}

/// The checks on an assembled request. The secret is checked first and the
/// file field second; when the file field is missing, that error is the one
/// reported, whatever the secret check found.
pub open spec fn validation(m: Map<Seq<char>, FieldData>, secret: Seq<char>) -> Result<
    FileField,
    Rejection,
> {
    if m.contains_key(file_key()) && m[file_key()] is File {
        match password_check(m, secret) {
            None => Ok(m[file_key()]->File_0),
            Some(e) => Err(e),
        }
    } else {
        Err(Rejection::SelectFile)
    }
}

fn copy_file_field(f: &FileField) -> (r: FileField)
    ensures
        r == *f,
{
    FileField { file_name: f.file_name.clone(), temp_file: f.temp_file.clone() }
}

/// Checks the shared secret and the presence of the file field.
pub fn validate(req: &UploadRequest, secret: &String) -> (r: Result<FileField, Rejection>)
    requires
        req.wf(),
    ensures
        r == validation(req@, secret@),
{
    let pwd = String::from_str("pwd");
    let file = String::from_str("file");
    proof {
        reveal_strlit("pwd");
        reveal_strlit("file");
        assert(pwd@ =~= pwd_key());
        assert(file@ =~= file_key());
    }
    let mut error: Option<Rejection> = None;
    match req.get(&pwd) {
        Some(FieldData::Paramter(p)) => {
            if p.value != *secret {
                error = Some(Rejection::IncorrectPassword);
            }
        },
        _ => {
            error = Some(Rejection::EnterPassword);
        },
    }
    match req.get(&file) {
        Some(FieldData::File(f)) => match error {
            None => Ok(copy_file_field(f)),
            Some(e) => Err(e),
        },
        _ => Err(Rejection::SelectFile),
    }
}

/// The directory part of a destination: the directory itself when it is
/// empty or ends in a separator, else the directory and a separator.
pub open spec fn directory_prefix(dir: Seq<char>) -> Seq<char> {
    if dir.len() == 0 || dir.last() == '/' {
        dir
    } else {
        dir.push('/')
    }
}

/// Where a file is committed: the client-supplied name, verbatim, inside the
/// upload directory.
pub open spec fn destination(dir: Seq<char>, file_name: Seq<char>) -> Seq<char> {
    directory_prefix(dir) + file_name
}

pub fn destination_path(dir: &String, file_name: &String) -> (r: String)
    ensures
        r@ == destination(dir@, file_name@),
{
    let d = dir.as_str();
    let n = d.unicode_len();
    let mut out = dir.clone();
    if n > 0 && d.get_char(n - 1) != '/' {
        out.append("/");
        proof {
            reveal_strlit("/");
            assert(out@ =~= dir@.push('/'));
        }
    }
    out.append(file_name.as_str());
    out
}

/// What is to be done with a request once it has been read.
pub enum UploadPlan {
    /// Answer with this text; nothing is written.
    Reply(String),
    /// Copy the scratch file to its destination.
    Commit { temp_file: String, destination: String },
}

pub enum PlanView {
    Reply(Seq<char>),
    Commit { temp_file: Seq<char>, destination: Seq<char> },
}

impl View for UploadPlan {
    type V = PlanView;

    open spec fn view(&self) -> PlanView {
        match self {
            UploadPlan::Reply(m) => PlanView::Reply(m@),
            UploadPlan::Commit { temp_file, destination } => PlanView::Commit {
                temp_file: temp_file@,
                destination: destination@,
            },
        }
    }
}

/// The plan for a validated request: commit the file into the upload
/// directory, or answer with the rejection's text.
pub open spec fn plan_of(v: Result<FileField, Rejection>, dir: Seq<char>) -> PlanView {
    match v {
        Ok(f) => PlanView::Commit {
            temp_file: f.temp_file@,
            destination: destination(dir, f.file_name@),
        },
        Err(e) => PlanView::Reply(e.spec_message()),
    }
}

/// The plan for an assembled request.
pub open spec fn plan_for(m: Map<Seq<char>, FieldData>, secret: Seq<char>, dir: Seq<char>) -> PlanView {
    plan_of(validation(m, secret), dir)
}

pub fn plan_commit(validated: Result<FileField, Rejection>, dir: &String) -> (r: UploadPlan)
    ensures
        r@ == plan_of(validated, dir@),
{
    match validated {
        Ok(f) => {
            let destination = destination_path(dir, &f.file_name);
            UploadPlan::Commit { temp_file: f.temp_file, destination }
        },
        Err(e) => UploadPlan::Reply(e.message()),
    }
}

/// Decides what to do with a request whose fields have all been read:
/// assemble them, check them against the configured secret, and plan the
/// commit into the configured directory.
pub fn upload(fields: Vec<FieldInfo>, conf: &Config) -> (r: UploadPlan)
    ensures
        r@ == plan_for(assembled(fields@), conf.pwd@, conf.path@),
{
    let req = assemble(fields);
    let validated = validate(&req, &conf.pwd);
    plan_commit(validated, &conf.path)
}

pub open spec fn success_message() -> Seq<char> {
    "upload succeeded"@
}

pub open spec fn copy_failed_message(e: Seq<char>) -> Seq<char> {
    "file copy failed: "@ + e
}

/// The answer once the copy of a committed file has been tried.
pub fn commit_reply(outcome: Result<(), String>) -> (r: String)
    ensures
        outcome is Ok ==> r@ == success_message(),
        outcome matches Err(e) ==> r@ == copy_failed_message(e@),
{
    match outcome {
        Ok(()) => String::from_str("upload succeeded"),
        Err(e) => {
            let mut r = String::from_str("file copy failed: ");
            r.append(e.as_str());
            r
        },
    }
}

/// The answer to a request, given its plan and, for a commit, how the copy went.
pub open spec fn response(plan: PlanView, copy: Result<(), Seq<char>>) -> Seq<char> {
    match plan {
        PlanView::Reply(m) => m,
        PlanView::Commit { .. } => match copy {
            Ok(()) => success_message(),
            Err(e) => copy_failed_message(e),
        },
    }
}

/// A model of the files on disk, by path.
pub type Disk = Map<Seq<char>, Seq<u8>>;

/// The files after a plan is carried out: a commit copies the scratch file
/// over whatever stood at the destination; a reply writes nothing.
pub open spec fn after_plan(disk: Disk, plan: PlanView) -> Disk {
    match plan {
        PlanView::Reply(_) => disk,
        PlanView::Commit { temp_file, destination } => disk.insert(destination, disk[temp_file]),
    }
}

/// A request without a secret field, but with a file, is answered
/// "please enter a password".
pub proof fn law_missing_password(m: Map<Seq<char>, FieldData>, secret: Seq<char>, dir: Seq<char>)
    requires
        !m.contains_key(pwd_key()),
        m.contains_key(file_key()),
        m[file_key()] is File,
    ensures
        validation(m, secret) == Err::<FileField, Rejection>(Rejection::EnterPassword),
        plan_for(m, secret, dir) == PlanView::Reply("please enter a password"@),
{
}

/// A request with a wrong secret and no file is answered "please select a
/// file": the file error overrides the secret error.
pub proof fn law_missing_file_overrides_password(
    m: Map<Seq<char>, FieldData>,
    secret: Seq<char>,
    dir: Seq<char>,
)
    requires
        m.contains_key(pwd_key()),
        m[pwd_key()] matches FieldData::Paramter(p) && p.value@ != secret,
        !m.contains_key(file_key()),
    ensures
        validation(m, secret) == Err::<FileField, Rejection>(Rejection::SelectFile),
        plan_for(m, secret, dir) == PlanView::Reply("please select a file"@),
{
}

/// A request with the right secret and a file commits it: the destination
/// is the client-supplied name inside the upload directory, it ends up with
/// the scratch file's bytes, and the answer is the success message.
pub proof fn law_accepted_upload_commits(
    m: Map<Seq<char>, FieldData>,
    secret: Seq<char>,
    dir: Seq<char>,
    disk: Disk,
    f: FileField,
)
    requires
        m.contains_key(pwd_key()),
        m[pwd_key()] matches FieldData::Paramter(p) && p.value@ == secret,
        m.contains_key(file_key()),
        m[file_key()] == FieldData::File(f),
    ensures
        plan_for(m, secret, dir) == (PlanView::Commit {
            temp_file: f.temp_file@,
            destination: destination(dir, f.file_name@),
        }),
        destination(dir, f.file_name@) == directory_prefix(dir) + f.file_name@,
        directory_prefix(dir).len() == 0 || directory_prefix(dir).last() == '/',
        after_plan(disk, plan_for(m, secret, dir))[destination(dir, f.file_name@)]
            == disk[f.temp_file@],
        response(plan_for(m, secret, dir), Ok(())) == success_message(),
{
}

/// Uploading a file under the same name twice succeeds both times, and the
/// destination holds the bytes of the second upload.
pub proof fn law_reupload_overwrites(
    m1: Map<Seq<char>, FieldData>,
    m2: Map<Seq<char>, FieldData>,
    secret: Seq<char>,
    dir: Seq<char>,
    disk: Disk,
    f1: FileField,
    f2: FileField,
    b1: Seq<u8>,
    b2: Seq<u8>,
)
    requires
        m1.contains_key(pwd_key()),
        m1[pwd_key()] matches FieldData::Paramter(p) && p.value@ == secret,
        m1.contains_key(file_key()),
        m1[file_key()] == FieldData::File(f1),
        m2.contains_key(pwd_key()),
        m2[pwd_key()] matches FieldData::Paramter(p) && p.value@ == secret,
        m2.contains_key(file_key()),
        m2[file_key()] == FieldData::File(f2),
        f1.file_name@ == f2.file_name@,
    ensures
        response(plan_for(m1, secret, dir), Ok(())) == success_message(),
        response(plan_for(m2, secret, dir), Ok(())) == success_message(),
        after_plan(disk.insert(f1.temp_file@, b1), plan_for(m1, secret, dir))[destination(
            dir,
            f1.file_name@,
        )] == b1,
        after_plan(
            after_plan(disk.insert(f1.temp_file@, b1), plan_for(m1, secret, dir)).insert(
                f2.temp_file@,
                b2,
            ),
            plan_for(m2, secret, dir),
        )[destination(dir, f1.file_name@)] == b2,
{
}

/// A field named "file" without a filename is read as a parameter, and a
/// request whose "file" field is a parameter is turned down with "please
/// select a file" and writes nothing.
pub proof fn law_file_field_without_filename(
    m: Map<Seq<char>, FieldData>,
    secret: Seq<char>,
    dir: Seq<char>,
    disk: Disk,
)
    requires
        m.contains_key(file_key()),
        m[file_key()] is Paramter,
    ensures
        validation(m, secret) == Err::<FileField, Rejection>(Rejection::SelectFile),
        plan_for(m, secret, dir) == PlanView::Reply("please select a file"@),
        after_plan(disk, plan_for(m, secret, dir)) == disk,
{
}

/// A request with a wrong secret and a file is answered "incorrect
/// password" and writes nothing.
pub proof fn law_wrong_password_writes_nothing(
    m: Map<Seq<char>, FieldData>,
    secret: Seq<char>,
    dir: Seq<char>,
    disk: Disk,
)
    requires
        m.contains_key(pwd_key()),
        m[pwd_key()] matches FieldData::Paramter(p) && p.value@ != secret,
        m.contains_key(file_key()),
        m[file_key()] is File,
    ensures
        plan_for(m, secret, dir) == PlanView::Reply("incorrect password"@),
        after_plan(disk, plan_for(m, secret, dir)) == disk,
{
}

/// Nothing reaches the disk unless both checks pass.
pub proof fn law_rejection_writes_nothing(
    m: Map<Seq<char>, FieldData>,
    secret: Seq<char>,
    dir: Seq<char>,
    disk: Disk,
)
    requires
        validation(m, secret) is Err,
    ensures
        plan_for(m, secret, dir) is Reply,
        after_plan(disk, plan_for(m, secret, dir)) == disk,
{
}

} // verus!
