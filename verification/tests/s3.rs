use stackable_versioned::commons::s3::ConnectionDef;
use stackable_versioned::commons::s3::InlinedS3BucketSpec;
use stackable_versioned::commons::s3::S3BucketDef;
use stackable_versioned::commons::s3::S3BucketSpec;
use stackable_versioned::commons::s3::S3ConnectionSpec;
use stackable_versioned::commons::s3::S3Error;
use stackable_versioned::commons::tls::CaCert;
use stackable_versioned::commons::tls::Tls;
use stackable_versioned::commons::tls::TlsVerification;

fn connection(host: Option<&str>, port: Option<u16>) -> S3ConnectionSpec {
    S3ConnectionSpec { host: host.map(|h| h.to_string()), port, secret_class: None, tls: None }
}

fn inlined(host: Option<&str>, port: Option<u16>) -> InlinedS3BucketSpec {
    InlinedS3BucketSpec { bucket_name: None, connection: Some(connection(host, port)) }
}

fn inline_bucket() -> S3BucketSpec {
    S3BucketSpec {
        bucket_name: Some("test-bucket-name".to_owned()),
        connection: Some(ConnectionDef::Inline(S3ConnectionSpec {
            host: Some("host".to_owned()),
            port: Some(8080),
            secret_class: None,
            tls: None,
        })),
    }
}

fn referring_bucket() -> S3BucketSpec {
    S3BucketSpec {
        bucket_name: Some("b".to_owned()),
        connection: Some(ConnectionDef::Reference("conn".to_owned())),
    }
}

fn secured_connection() -> S3ConnectionSpec {
    S3ConnectionSpec {
        host: Some("minio".to_owned()),
        port: Some(9000),
        secret_class: Some("s3-credentials".to_owned()),
        tls: Some(Tls {
            verification: TlsVerification::Server {
                ca_cert: CaCert::SecretClass("s3-ca".to_owned()),
            },
        }),
    }
}

#[test]
fn endpoint_has_host_and_port() {
    assert_eq!(inlined(Some("host"), Some(8080)).endpoint(), Some("s3a://host:8080".to_string()));
}

#[test]
fn endpoint_without_port_has_the_host_only() {
    assert_eq!(inlined(Some("host"), None).endpoint(), Some("s3a://host".to_string()));
}

#[test]
fn endpoint_needs_a_host() {
    assert_eq!(inlined(None, Some(8080)).endpoint(), None);
    assert_eq!(inlined(None, None).endpoint(), None);
}

#[test]
fn endpoint_needs_a_connection() {
    let bucket = InlinedS3BucketSpec { bucket_name: Some("b".to_string()), connection: None };
    assert_eq!(bucket.endpoint(), None);
}

#[test]
fn endpoint_writes_every_port_in_decimal() {
    for port in [0u16, 1, 9, 10, 11, 99, 100, 101, 443, 999, 1000, 9000, 9999, 10000, 65535] {
        let expected = format!("s3a://h:{port}");
        assert_eq!(inlined(Some("h"), Some(port)).endpoint(), Some(expected));
    }
}

#[test]
fn endpoint_agrees_with_std_for_all_ports() {
    for port in 0..=u16::MAX {
        let expected = format!("s3a://example.org:{}", port);
        assert_eq!(connection(Some("example.org"), Some(port)).endpoint(), Some(expected));
    }
}

#[test]
fn endpoint_takes_the_host_as_it_is() {
    assert_eq!(inlined(Some(""), Some(1)).endpoint(), Some("s3a://:1".to_string()));
    assert_eq!(
        inlined(Some("m\u{00fc}nchen.example"), None).endpoint(),
        Some("s3a://m\u{00fc}nchen.example".to_string())
    );
}

#[test]
fn secret_class_is_that_of_the_connection() {
    let bucket =
        InlinedS3BucketSpec { bucket_name: None, connection: Some(secured_connection()) };
    assert_eq!(bucket.secret_class(), Some("s3-credentials".to_string()));
    assert_eq!(inlined(Some("host"), None).secret_class(), None);
    let bare = InlinedS3BucketSpec { bucket_name: None, connection: None };
    assert_eq!(bare.secret_class(), None);
}

#[test]
fn default_specs_are_empty() {
    assert_eq!(S3BucketSpec::default(), S3BucketSpec { bucket_name: None, connection: None });
    assert_eq!(
        S3ConnectionSpec::default(),
        S3ConnectionSpec { host: None, port: None, secret_class: None, tls: None }
    );
}

#[test]
fn clones_are_equal() {
    assert_eq!(secured_connection().clone(), secured_connection());
    assert_eq!(inline_bucket().clone(), inline_bucket());
    assert_eq!(referring_bucket().clone(), referring_bucket());
    let def = S3BucketDef::Inline(inline_bucket());
    assert_eq!(def.clone(), def);
    let def = S3BucketDef::Reference("bucket".to_string());
    assert_eq!(def.clone(), def);
    let tls = Tls { verification: TlsVerification::Unverified };
    assert_eq!(tls.clone(), tls);
    let tls = Tls { verification: TlsVerification::Server { ca_cert: CaCert::WebPki } };
    assert_eq!(tls.clone(), tls);
}

#[test]
fn found_bucket_is_handed_back() {
    assert_eq!(S3BucketSpec::get("bucket", Some(inline_bucket())), Ok(inline_bucket()));
}

#[test]
fn missing_bucket_is_named() {
    assert_eq!(
        S3BucketSpec::get("bucket", None),
        Err(S3Error::MissingS3Bucket { name: "bucket".to_string() })
    );
}

#[test]
fn found_connection_is_handed_back() {
    assert_eq!(S3ConnectionSpec::get("conn", Some(secured_connection())), Ok(secured_connection()));
}

#[test]
fn missing_connection_is_named() {
    assert_eq!(
        S3ConnectionSpec::get("conn", None),
        Err(S3Error::MissingS3Connection { name: "conn".to_string() })
    );
}

#[test]
fn inline_connection_is_inlined_as_it_is() {
    let expected = InlinedS3BucketSpec {
        bucket_name: Some("test-bucket-name".to_owned()),
        connection: Some(connection(Some("host"), Some(8080))),
    };
    assert_eq!(inline_bucket().inlined(None), Ok(expected));
    let expected = InlinedS3BucketSpec {
        bucket_name: Some("test-bucket-name".to_owned()),
        connection: Some(connection(Some("host"), Some(8080))),
    };
    assert_eq!(inline_bucket().inlined(Some(secured_connection())), Ok(expected));
    assert_eq!(
        inline_bucket().inlined(None).unwrap().endpoint(),
        Some("s3a://host:8080".to_string())
    );
}

#[test]
fn referenced_connection_is_inlined() {
    let expected = InlinedS3BucketSpec {
        bucket_name: Some("b".to_owned()),
        connection: Some(secured_connection()),
    };
    assert_eq!(referring_bucket().inlined(Some(secured_connection())), Ok(expected));
}

#[test]
fn referenced_connection_that_is_missing_fails() {
    assert_eq!(
        referring_bucket().inlined(None),
        Err(S3Error::MissingS3Connection { name: "conn".to_string() })
    );
}

#[test]
fn bucket_without_connection_is_inlined_without() {
    let bucket = S3BucketSpec { bucket_name: Some("b".to_owned()), connection: None };
    let expected = InlinedS3BucketSpec { bucket_name: Some("b".to_owned()), connection: None };
    assert_eq!(bucket.inlined(Some(secured_connection())), Ok(expected));
    let expected = InlinedS3BucketSpec { bucket_name: None, connection: None };
    assert_eq!(S3BucketSpec::default().inlined(None), Ok(expected));
}

#[test]
fn bucket_names_the_connection_it_refers_to() {
    assert_eq!(referring_bucket().connection_reference(), Some("conn".to_string()));
    assert_eq!(inline_bucket().connection_reference(), None);
    assert_eq!(S3BucketSpec::default().connection_reference(), None);
}

#[test]
fn definition_names_the_bucket_it_refers_to() {
    assert_eq!(S3BucketDef::Reference("bucket".to_string()).bucket_reference(), Some("bucket".to_string()));
    assert_eq!(S3BucketDef::Inline(inline_bucket()).bucket_reference(), None);
}

#[test]
fn definition_names_the_connection_it_needs() {
    let inline = S3BucketDef::Inline(referring_bucket());
    assert_eq!(inline.connection_reference(&None), Some("conn".to_string()));
    assert_eq!(inline.connection_reference(&Some(inline_bucket())), Some("conn".to_string()));
    let reference = S3BucketDef::Reference("bucket".to_string());
    assert_eq!(reference.connection_reference(&Some(referring_bucket())), Some("conn".to_string()));
    assert_eq!(reference.connection_reference(&Some(inline_bucket())), None);
    assert_eq!(reference.connection_reference(&None), None);
    assert_eq!(S3BucketDef::Inline(inline_bucket()).connection_reference(&None), None);
}

#[test]
fn inline_definition_resolves_to_its_bucket() {
    let def = S3BucketDef::Inline(inline_bucket());
    let expected = InlinedS3BucketSpec {
        bucket_name: Some("test-bucket-name".to_owned()),
        connection: Some(connection(Some("host"), Some(8080))),
    };
    assert_eq!(def.resolve(None, None), Ok(expected));
    let def = S3BucketDef::Inline(referring_bucket());
    let expected = InlinedS3BucketSpec {
        bucket_name: Some("b".to_owned()),
        connection: Some(secured_connection()),
    };
    assert_eq!(def.resolve(Some(inline_bucket()), Some(secured_connection())), Ok(expected));
}

#[test]
fn referring_definition_resolves_to_the_bucket_found() {
    let def = S3BucketDef::Reference("bucket".to_string());
    let expected = InlinedS3BucketSpec {
        bucket_name: Some("b".to_owned()),
        connection: Some(secured_connection()),
    };
    assert_eq!(def.resolve(Some(referring_bucket()), Some(secured_connection())), Ok(expected));
    let expected = InlinedS3BucketSpec {
        bucket_name: Some("test-bucket-name".to_owned()),
        connection: Some(connection(Some("host"), Some(8080))),
    };
    assert_eq!(def.resolve(Some(inline_bucket()), None), Ok(expected));
}

#[test]
fn referring_definition_fails_without_its_bucket() {
    let def = S3BucketDef::Reference("bucket".to_string());
    assert_eq!(
        def.resolve(None, Some(secured_connection())),
        Err(S3Error::MissingS3Bucket { name: "bucket".to_string() })
    );
}

#[test]
fn definition_fails_without_the_connection_it_needs() {
    let def = S3BucketDef::Reference("bucket".to_string());
    assert_eq!(
        def.resolve(Some(referring_bucket()), None),
        Err(S3Error::MissingS3Connection { name: "conn".to_string() })
    );
    let def = S3BucketDef::Inline(referring_bucket());
    assert_eq!(
        def.resolve(None, None),
        Err(S3Error::MissingS3Connection { name: "conn".to_string() })
    );
}
