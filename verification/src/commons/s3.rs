//! S3 buckets and the connections through which they are reached.
//!
//! A schema that works with a bucket holds an [`S3BucketDef`]. Resolving it
//! gives an [`InlinedS3BucketSpec`], in which every reference to another
//! resource has been replaced by what that resource holds. Looking a
//! resource up is left to the caller: the functions here say which resource
//! is wanted, and take what the lookup found.

use crate::commons::tls::Tls;
use crate::commons::tls::TlsModel;
use vstd::prelude::*;

verus! {

/// A resource that a definition refers to was not found.
#[derive(Debug, PartialEq, Eq)]
pub enum S3Error {
    /// No bucket resource goes by `name`.
    MissingS3Bucket { name: String },
    /// No connection resource goes by `name`.
    MissingS3Connection { name: String },
}

/// The mathematical value of an [`S3Error`].
pub enum S3ErrorModel {
    MissingS3Bucket { name: Seq<char> },
    MissingS3Connection { name: Seq<char> },
}

impl View for S3Error {
    type V = S3ErrorModel;

    open spec fn view(&self) -> S3ErrorModel {
        match self {
            S3Error::MissingS3Bucket { name } => S3ErrorModel::MissingS3Bucket { name: name@ },
            S3Error::MissingS3Connection { name } => S3ErrorModel::MissingS3Connection {
                name: name@,
            },
        }
    }
}

/// The text of an optional string.
pub open spec fn text(s: Option<String>) -> Option<Seq<char>> {
    match s {
        Some(s) => Some(s@),
        None => None,
    }
}

/// How an S3 service is reached.
#[derive(Debug, PartialEq, Eq)]
pub struct S3ConnectionSpec {
    pub host: Option<String>,
    pub port: Option<u16>,
    pub secret_class: Option<String>,
    pub tls: Option<Tls>,
}

/// The mathematical value of an [`S3ConnectionSpec`].
pub struct S3ConnectionSpecModel {
    pub host: Option<Seq<char>>,
    pub port: Option<u16>,
    pub secret_class: Option<Seq<char>>,
    pub tls: Option<TlsModel>,
}

impl View for S3ConnectionSpec {
    type V = S3ConnectionSpecModel;

    open spec fn view(&self) -> S3ConnectionSpecModel {
        S3ConnectionSpecModel {
            host: text(self.host),
            port: self.port,
            secret_class: text(self.secret_class),
            tls: match self.tls {
                Some(tls) => Some(tls@),
                None => None,
            },
        }
    }
}

/// The connection of a bucket: written out, or the name of a connection
/// resource.
#[derive(Debug, PartialEq, Eq)]
pub enum ConnectionDef {
    Inline(S3ConnectionSpec),
    Reference(String),
}

/// The mathematical value of a [`ConnectionDef`].
pub enum ConnectionDefModel {
    Inline(S3ConnectionSpecModel),
    Reference(Seq<char>),
}

impl View for ConnectionDef {
    type V = ConnectionDefModel;

    open spec fn view(&self) -> ConnectionDefModel {
        match self {
            ConnectionDef::Inline(spec) => ConnectionDefModel::Inline(spec@),
            ConnectionDef::Reference(name) => ConnectionDefModel::Reference(name@),
        }
    }
}

/// A bucket: its name, and its connection, written out or referred to.
#[derive(Debug, PartialEq, Eq)]
pub struct S3BucketSpec {
    pub bucket_name: Option<String>,
    pub connection: Option<ConnectionDef>,
}

/// The mathematical value of an [`S3BucketSpec`].
pub struct S3BucketSpecModel {
    pub bucket_name: Option<Seq<char>>,
    pub connection: Option<ConnectionDefModel>,
}

impl View for S3BucketSpec {
    type V = S3BucketSpecModel;

    open spec fn view(&self) -> S3BucketSpecModel {
        S3BucketSpecModel {
            bucket_name: text(self.bucket_name),
            connection: match self.connection {
                Some(connection) => Some(connection@),
                None => None,
            },
        }
    }
}

/// A bucket whose connection is written out.
#[derive(Debug, PartialEq, Eq)]
pub struct InlinedS3BucketSpec {
    pub bucket_name: Option<String>,
    pub connection: Option<S3ConnectionSpec>,
}

/// The mathematical value of an [`InlinedS3BucketSpec`].
pub struct InlinedS3BucketSpecModel {
    pub bucket_name: Option<Seq<char>>,
    pub connection: Option<S3ConnectionSpecModel>,
}

impl View for InlinedS3BucketSpec {
    type V = InlinedS3BucketSpecModel;

    open spec fn view(&self) -> InlinedS3BucketSpecModel {
        InlinedS3BucketSpecModel {
            bucket_name: text(self.bucket_name),
            connection: match self.connection {
                Some(connection) => Some(connection@),
                None => None,
            },
        }
    }
}

/// What a schema holds to work with a bucket: the bucket written out, or the
/// name of a bucket resource.
#[derive(Debug, PartialEq, Eq)]
pub enum S3BucketDef {
    Inline(S3BucketSpec),
    Reference(String),
}

/// The mathematical value of an [`S3BucketDef`].
pub enum S3BucketDefModel {
    Inline(S3BucketSpecModel),
    Reference(Seq<char>),
}

impl View for S3BucketDef {
    type V = S3BucketDefModel;

    open spec fn view(&self) -> S3BucketDefModel {
        match self {
            S3BucketDef::Inline(spec) => S3BucketDefModel::Inline(spec@),
            S3BucketDef::Reference(name) => S3BucketDefModel::Reference(name@),
        }
    }
}

/// The character that stands for the digit `d`.
pub open spec fn digit(d: nat) -> char {
    if d == 0 {
        '0'
    } else if d == 1 {
        '1'
    } else if d == 2 {
        '2'
    } else if d == 3 {
        '3'
    } else if d == 4 {
        '4'
    } else if d == 5 {
        '5'
    } else if d == 6 {
        '6'
    } else if d == 7 {
        '7'
    } else if d == 8 {
        '8'
    } else {
        '9'
    }
}

/// The number `n` in decimal, without leading zeros.
pub open spec fn decimal(n: nat) -> Seq<char>
    decreases n,
{
    if n < 10 {
        seq![digit(n)]
    } else {
        decimal(n / 10).push(digit(n % 10))
    }
}

/// The scheme that an endpoint begins with.
pub open spec fn scheme() -> Seq<char> {
    seq!['s', '3', 'a', ':', '/', '/']
}

impl S3ConnectionSpecModel {
    /// The endpoint of the connection: the scheme and the host, then a colon
    /// and the port in decimal if there is a port. Without a host there is no
    /// endpoint.
    pub open spec fn endpoint(self) -> Option<Seq<char>> {
        match self.host {
            Some(host) => Some(
                match self.port {
                    Some(port) => scheme() + host + seq![':'] + decimal(port as nat),
                    None => scheme() + host,
                },
            ),
            None => None,
        }
    }
}

impl InlinedS3BucketSpecModel {
    /// The endpoint of the connection of the bucket, if it has one.
    pub open spec fn endpoint(self) -> Option<Seq<char>> {
        match self.connection {
            Some(connection) => connection.endpoint(),
            None => None,
        }
    }

    /// The secret class of the connection of the bucket, if it has one.
    pub open spec fn secret_class(self) -> Option<Seq<char>> {
        match self.connection {
            Some(connection) => connection.secret_class,
            None => None,
        }
    }
}

impl S3BucketSpecModel {
    /// The name of the connection resource that the bucket refers to.
    pub open spec fn connection_reference(self) -> Option<Seq<char>> {
        match self.connection {
            Some(ConnectionDefModel::Reference(name)) => Some(name),
            _ => None,
        }
    }

    /// The bucket with its connection written out, where `referenced` is
    /// what the lookup of the connection resource found.
    pub open spec fn inlined(self, referenced: Option<S3ConnectionSpecModel>) -> Result<
        InlinedS3BucketSpecModel,
        S3ErrorModel,
    > {
        match self.connection {
            Some(ConnectionDefModel::Reference(name)) => match referenced {
                Some(connection) => Ok(
                    InlinedS3BucketSpecModel {
                        bucket_name: self.bucket_name,
                        connection: Some(connection),
                    },
                ),
                None => Err(S3ErrorModel::MissingS3Connection { name }),
            },
            Some(ConnectionDefModel::Inline(connection)) => Ok(
                InlinedS3BucketSpecModel {
                    bucket_name: self.bucket_name,
                    connection: Some(connection),
                },
            ),
            None => Ok(
                InlinedS3BucketSpecModel { bucket_name: self.bucket_name, connection: None },
            ),
        }
    }
}

impl S3BucketDefModel {
    /// The name of the bucket resource that the definition refers to.
    pub open spec fn bucket_reference(self) -> Option<Seq<char>> {
        match self {
            S3BucketDefModel::Reference(name) => Some(name),
            S3BucketDefModel::Inline(_) => None,
        }
    }

    /// The bucket that the definition stands for, where `bucket` is what the
    /// lookup of the bucket resource found.
    pub open spec fn bucket(self, bucket: Option<S3BucketSpecModel>) -> Result<
        S3BucketSpecModel,
        S3ErrorModel,
    > {
        match self {
            S3BucketDefModel::Inline(spec) => Ok(spec),
            S3BucketDefModel::Reference(name) => match bucket {
                Some(spec) => Ok(spec),
                None => Err(S3ErrorModel::MissingS3Bucket { name }),
            },
        }
    }

    /// The name of the connection resource that resolving the definition
    /// needs.
    pub open spec fn connection_reference(self, bucket: Option<S3BucketSpecModel>) -> Option<
        Seq<char>,
    > {
        match self.bucket(bucket) {
            Ok(spec) => spec.connection_reference(),
            Err(_) => None,
        }
    }

    /// The bucket that the definition stands for, with its connection
    /// written out.
    pub open spec fn resolve(
        self,
        bucket: Option<S3BucketSpecModel>,
        connection: Option<S3ConnectionSpecModel>,
    ) -> Result<InlinedS3BucketSpecModel, S3ErrorModel> {
        match self.bucket(bucket) {
            Ok(spec) => spec.inlined(connection),
            Err(e) => Err(e),
        }
    }
}

/// The mathematical value of the outcome of a lookup.
pub open spec fn found_bucket(found: Option<S3BucketSpec>) -> Option<S3BucketSpecModel> {
    match found {
        Some(spec) => Some(spec@),
        None => None,
    }
}

/// The mathematical value of the outcome of a lookup.
pub open spec fn found_connection(found: Option<S3ConnectionSpec>) -> Option<
    S3ConnectionSpecModel,
> {
    match found {
        Some(spec) => Some(spec@),
        None => None,
    }
}

/// The mathematical value of the outcome of inlining.
pub open spec fn inlined_outcome(r: Result<InlinedS3BucketSpec, S3Error>) -> Result<
    InlinedS3BucketSpecModel,
    S3ErrorModel,
> {
    match r {
        Ok(spec) => Ok(spec@),
        Err(e) => Err(e@),
    }
}

/// Copies an optional string.
fn clone_text(s: &Option<String>) -> (copy: Option<String>)
    ensures
        text(copy) == text(*s),
{
    match s {
        Some(s) => Some(s.clone()),
        None => None,
    }
}

/// The digit `d` as a text of one character.
fn digit_text(d: u16) -> (s: &'static str)
    requires
        d < 10,
    ensures
        s@ == seq![digit(d as nat)],
{
    proof {
        reveal_strlit("0");
        reveal_strlit("1");
        reveal_strlit("2");
        reveal_strlit("3");
        reveal_strlit("4");
        reveal_strlit("5");
        reveal_strlit("6");
        reveal_strlit("7");
        reveal_strlit("8");
        reveal_strlit("9");
    }
    let s = if d == 0 {
        "0"
    } else if d == 1 {
        "1"
    } else if d == 2 {
        "2"
    } else if d == 3 {
        "3"
    } else if d == 4 {
        "4"
    } else if d == 5 {
        "5"
    } else if d == 6 {
        "6"
    } else if d == 7 {
        "7"
    } else if d == 8 {
        "8"
    } else {
        "9"
    };
    assert(s@ =~= seq![digit(d as nat)]);
    s
}

/// Writes `n` in decimal.
fn decimal_text(n: u16) -> (s: String)
    ensures
        s@ == decimal(n as nat),
    decreases n,
{
    if n < 10 {
        String::from_str(digit_text(n))
    } else {
        let mut s = decimal_text(n / 10);
        s.append(digit_text(n % 10));
        s
    }
}

impl Clone for S3ConnectionSpec {
    fn clone(&self) -> (copy: S3ConnectionSpec)
        ensures
            copy@ == self@,
    {
        S3ConnectionSpec {
            host: clone_text(&self.host),
            port: self.port,
            secret_class: clone_text(&self.secret_class),
            tls: match &self.tls {
                Some(tls) => Some(tls.clone()),
                None => None,
            },
        }
    }
}

impl Default for S3ConnectionSpec {
    fn default() -> (spec: S3ConnectionSpec)
        ensures
            spec@ == (S3ConnectionSpecModel {
                host: None,
                port: None,
                secret_class: None,
                tls: None,
            }),
    {
        S3ConnectionSpec { host: None, port: None, secret_class: None, tls: None }
    }
}

impl S3ConnectionSpec {
    /// What the lookup of the connection resource `resource_name` comes to:
    /// the connection that was found, or the error that names the resource.
    pub fn get(resource_name: &str, found: Option<S3ConnectionSpec>) -> (r: Result<
        S3ConnectionSpec,
        S3Error,
    >)
        ensures
            match found {
                Some(spec) => r == Ok::<S3ConnectionSpec, S3Error>(spec),
                None => r matches Err(e) && e@ == (S3ErrorModel::MissingS3Connection {
                    name: resource_name@,
                }),
            },
    {
        match found {
            Some(spec) => Ok(spec),
            None => Err(S3Error::MissingS3Connection { name: String::from_str(resource_name) }),
        }
    }

    /// The endpoint of the connection, as a URL.
    pub fn endpoint(&self) -> (url: Option<String>)
        ensures
            text(url) == self@.endpoint(),
    {
        match &self.host {
            Some(host) => {
                let mut url = String::from_str("s3a://");
                proof {
                    reveal_strlit("s3a://");
                    assert(url@ =~= scheme());
                }
                url.append(host.as_str());
                match self.port {
                    Some(port) => {
                        proof {
                            reveal_strlit(":");
                            assert(":"@ =~= seq![':']);
                        }
                        url.append(":");
                        let digits = decimal_text(port);
                        url.append(digits.as_str());
                    },
                    None => {},
                }
                Some(url)
            },
            None => None,
        }
    }
}

impl Clone for ConnectionDef {
    fn clone(&self) -> (copy: ConnectionDef)
        ensures
            copy@ == self@,
    {
        match self {
            ConnectionDef::Inline(spec) => ConnectionDef::Inline(spec.clone()),
            ConnectionDef::Reference(name) => ConnectionDef::Reference(name.clone()),
        }
    }
}

impl Clone for S3BucketSpec {
    fn clone(&self) -> (copy: S3BucketSpec)
        ensures
            copy@ == self@,
    {
        S3BucketSpec {
            bucket_name: clone_text(&self.bucket_name),
            connection: match &self.connection {
                Some(connection) => Some(connection.clone()),
                None => None,
            },
        }
    }
}

impl Default for S3BucketSpec {
    fn default() -> (spec: S3BucketSpec)
        ensures
            spec@ == (S3BucketSpecModel { bucket_name: None, connection: None }),
    {
        S3BucketSpec { bucket_name: None, connection: None }
    }
}

impl S3BucketSpec {
    /// What the lookup of the bucket resource `resource_name` comes to: the
    /// bucket that was found, or the error that names the resource.
    pub fn get(resource_name: &str, found: Option<S3BucketSpec>) -> (r: Result<
        S3BucketSpec,
        S3Error,
    >)
        ensures
            match found {
                Some(spec) => r == Ok::<S3BucketSpec, S3Error>(spec),
                None => r matches Err(e) && e@ == (S3ErrorModel::MissingS3Bucket {
                    name: resource_name@,
                }),
            },
    {
        match found {
            Some(spec) => Ok(spec),
            None => Err(S3Error::MissingS3Bucket { name: String::from_str(resource_name) }),
        }
    }

    /// The name of the connection resource that has to be looked up before
    /// the bucket can be inlined, if there is one.
    pub fn connection_reference(&self) -> (name: Option<String>)
        ensures
            text(name) == self@.connection_reference(),
    {
        match &self.connection {
            Some(ConnectionDef::Reference(name)) => Some(name.clone()),
            _ => None,
        }
    }

    /// Writes the connection of the bucket out.
    ///
    /// `referenced` is what the lookup of the connection resource found, the
    /// one that [`S3BucketSpec::connection_reference`] names; it is looked at
    /// only if the bucket refers to a connection.
    pub fn inlined(&self, referenced: Option<S3ConnectionSpec>) -> (r: Result<
        InlinedS3BucketSpec,
        S3Error,
    >)
        ensures
            inlined_outcome(r) == self@.inlined(found_connection(referenced)),
    {
        match &self.connection {
            Some(ConnectionDef::Reference(name)) => {
                let connection = match S3ConnectionSpec::get(name.as_str(), referenced) {
                    Ok(connection) => connection,
                    Err(e) => {
                        return Err(e);
                    },
                };
                Ok(
                    InlinedS3BucketSpec {
                        connection: Some(connection),
                        bucket_name: clone_text(&self.bucket_name),
                    },
                )
            },
            Some(ConnectionDef::Inline(connection)) => Ok(
                InlinedS3BucketSpec {
                    bucket_name: clone_text(&self.bucket_name),
                    connection: Some(connection.clone()),
                },
            ),
            None => Ok(
                InlinedS3BucketSpec {
                    bucket_name: clone_text(&self.bucket_name),
                    connection: None,
                },
            ),
        }
    }
}

impl InlinedS3BucketSpec {
    /// The endpoint of the bucket's connection, as a URL.
    pub fn endpoint(&self) -> (url: Option<String>)
        ensures
            text(url) == self@.endpoint(),
    {
        match &self.connection {
            Some(connection) => connection.endpoint(),
            None => None,
        }
    }

    /// The secret class of the bucket's connection.
    pub fn secret_class(&self) -> (class: Option<String>)
        ensures
            text(class) == self@.secret_class(),
    {
        match &self.connection {
            Some(connection) => clone_text(&connection.secret_class),
            None => None,
        }
    }
}

impl Clone for S3BucketDef {
    fn clone(&self) -> (copy: S3BucketDef)
        ensures
            copy@ == self@,
    {
        match self {
            S3BucketDef::Inline(spec) => S3BucketDef::Inline(spec.clone()),
            S3BucketDef::Reference(name) => S3BucketDef::Reference(name.clone()),
        }
    }
}

impl S3BucketDef {
    /// The name of the bucket resource that has to be looked up before the
    /// definition can be resolved, if there is one.
    pub fn bucket_reference(&self) -> (name: Option<String>)
        ensures
            text(name) == self@.bucket_reference(),
    {
        match self {
            S3BucketDef::Reference(name) => Some(name.clone()),
            S3BucketDef::Inline(_) => None,
        }
    }

    /// The name of the connection resource that has to be looked up before
    /// the definition can be resolved, if there is one.
    ///
    /// `bucket` is what the lookup of the bucket resource found, the one
    /// that [`S3BucketDef::bucket_reference`] names.
    pub fn connection_reference(&self, bucket: &Option<S3BucketSpec>) -> (name: Option<String>)
        ensures
            text(name) == self@.connection_reference(found_bucket(*bucket)),
    {
        match self {
            S3BucketDef::Inline(spec) => spec.connection_reference(),
            S3BucketDef::Reference(_) => match bucket {
                Some(spec) => spec.connection_reference(),
                None => None,
            },
        }
    }

    /// Resolves the definition to a bucket with its connection written out.
    ///
    /// `bucket` and `connection` are what the lookups found of the resources
    /// that [`S3BucketDef::bucket_reference`] and
    /// [`S3BucketDef::connection_reference`] name; each is looked at only if
    /// the definition needs it.
    pub fn resolve(&self, bucket: Option<S3BucketSpec>, connection: Option<S3ConnectionSpec>) -> (r:
        Result<InlinedS3BucketSpec, S3Error>)
        ensures
            inlined_outcome(r) == self@.resolve(found_bucket(bucket), found_connection(connection)),
    {
        match self {
            S3BucketDef::Inline(spec) => spec.inlined(connection),
            S3BucketDef::Reference(name) => {
                match S3BucketSpec::get(name.as_str(), bucket) {
                    Ok(spec) => spec.inlined(connection),
                    Err(e) => Err(e),
                }
            },
        }
    }
}

} // verus!
