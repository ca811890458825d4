use jvm::classfile::signature::{BaseType, MethodSignature, SignatureType};
use jvm::trans::signature_type::SignatureTypeTranslator;

fn plain(base: BaseType) -> SignatureType {
    SignatureType { base, dims: 0 }
}

fn texts(desc: &str) -> Option<(Vec<String>, String)> {
    MethodSignature::new(desc.as_bytes())
        .map(|s| (s.args.iter().map(|t| t.into_string()).collect(), s.retype.into_string()))
}

#[test]
fn a_method_descriptor_spells_parameters_and_result() {
    assert_eq!(
        MethodSignature::new(b"()V"),
        Some(MethodSignature { args: vec![], retype: plain(BaseType::Void) })
    );
    assert_eq!(
        MethodSignature::new(b"(IJ[[Ljava/lang/String;Z)[B"),
        Some(MethodSignature {
            args: vec![
                plain(BaseType::Int),
                plain(BaseType::Long),
                SignatureType { base: BaseType::Object(b"java/lang/String".to_vec()), dims: 2 },
                plain(BaseType::Boolean),
            ],
            retype: SignatureType { base: BaseType::Byte, dims: 1 },
        })
    );
    assert_eq!(
        MethodSignature::new(b"(BCDFIJSZ)Ljava/lang/Object;"),
        Some(MethodSignature {
            args: vec![
                plain(BaseType::Byte),
                plain(BaseType::Char),
                plain(BaseType::Double),
                plain(BaseType::Float),
                plain(BaseType::Int),
                plain(BaseType::Long),
                plain(BaseType::Short),
                plain(BaseType::Boolean),
            ],
            retype: plain(BaseType::Object(b"java/lang/Object".to_vec())),
        })
    );
}

#[test]
fn what_is_no_method_descriptor_is_refused() {
    for bad in [
        "", "V", "()", "(", ")V", "(V)V", "([V)V", "()[V", "(I", "(I)VV", "(I)V ", "(Q)V", "(L;)V",
        "(Ljava/lang/String)V", "(I)Ljava/lang/String", "()L;", "(I)", "I", "(I[)V", "()[",
    ] {
        assert_eq!(MethodSignature::new(bad.as_bytes()), None, "{}", bad);
    }
}

#[test]
fn an_array_has_at_most_255_dimensions() {
    let ok = format!("({}I)V", "[".repeat(255));
    let too_many = format!("({}I)V", "[".repeat(256));
    assert_eq!(MethodSignature::new(ok.as_bytes()).unwrap().args[0].dims, 255);
    assert_eq!(MethodSignature::new(too_many.as_bytes()), None);
}

#[test]
fn types_as_the_source_language_writes_them() {
    assert_eq!(
        texts("(IJ[[Ljava/lang/String;Z)[B"),
        Some((
            vec!["int".to_string(), "long".to_string(), "java.lang.String[][]".to_string(), "boolean".to_string()],
            "byte[]".to_string()
        ))
    );
    assert_eq!(
        texts("(BCDFS)V"),
        Some((
            vec!["byte".to_string(), "char".to_string(), "double".to_string(), "float".to_string(), "short".to_string()],
            "void".to_string()
        ))
    );
    assert_eq!(texts("()LOuter$Inner;"), Some((vec![], "Outer$Inner".to_string())));
    assert_eq!(plain(BaseType::Object(vec![b'a', 0xff, b'/', b'b'])).into_string(), "a\u{fffd}.b");
}
