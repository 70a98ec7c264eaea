use hslex::lexeme::Error;
use hslex::lexeme::Lexeme;
use hslex::qident::{QConId, QConSym, QVarId, QVarSym};
use hslex::regex;

#[test]
fn qconid_qconid() {
    let res = QConId::recognize("A.F").unwrap();
    assert_eq!(res.span, vec![3]);
    let res = QConId::recognize("A.F.f").unwrap();
    assert_eq!(res.span, vec![3]); // 3, not 5!
    let res = QConId::recognize(".");
    assert_eq!(res, Err(Error::Regex(regex::Error::NoMatch)));
    let res = QConId::recognize("A'.F'.f").unwrap();
    assert_eq!(res.span, vec![5]);
    let res = QConId::recognize("Aa2'.F2f'.f22").unwrap();
    assert_eq!(res.span, vec![9]);

    let res = QConId::recognize("f.g");
    assert_eq!(res, Err(Error::Regex(regex::Error::NoMatch)));
    let res = QConId::recognize("F.g").unwrap();
    assert_eq!(res.span, vec![1]);
    let res = QConId::recognize("f..");
    assert_eq!(res, Err(Error::Regex(regex::Error::NoMatch)));
    let res = QConId::recognize("F..").unwrap();
    assert_eq!(res.span, vec![1]);
    let res = QConId::recognize("F.G").unwrap();
    assert_eq!(res.span, vec![3]);
    let res = QConId::recognize("F.").unwrap();
    assert_eq!(res.span, vec![1]);
}

#[test]
fn qident_qconid() {
    let res = QConId::recognize("A.F").unwrap();
    assert_eq!(res.span, vec![3]);
    let res = QConId::recognize("A.F.f").unwrap();
    assert_eq!(res.span, vec![3]); // 3, not 5!
    let res = QConId::recognize(".");
    assert_eq!(res, Err(Error::Regex(regex::Error::NoMatch)));
    let res = QConId::recognize("A'.F'.f").unwrap();
    assert_eq!(res.span, vec![5]);
    let res = QConId::recognize("Aa2'.F2f'.f22").unwrap();
    assert_eq!(res.span, vec![9]);

    let res = QConId::recognize("f.g");
    assert_eq!(res, Err(Error::Regex(regex::Error::NoMatch)));
    let res = QConId::recognize("F.g").unwrap();
    assert_eq!(res.span, vec![1]);
    let res = QConId::recognize("f..");
    assert_eq!(res, Err(Error::Regex(regex::Error::NoMatch)));
    let res = QConId::recognize("F..").unwrap();
    assert_eq!(res.span, vec![1]);
    let res = QConId::recognize("F.G").unwrap();
    assert_eq!(res.span, vec![3]);
    let res = QConId::recognize("F.").unwrap();
    assert_eq!(res.span, vec![1]);
}

#[test]
fn qvarid() {
    let _res = QVarId::recognize("f.g");
    let _res = QVarId::recognize("f..");
}

#[test]
fn qvarsym() {}

#[test]
fn qvarid_matches() {
    let res = QVarId::recognize("f.g").unwrap();
    assert_eq!(res.span, vec![1]); // the qualifier must be capitalized
    let res = QVarId::recognize("A.f").unwrap();
    assert_eq!(res.span, vec![3]);
    let res = QVarId::recognize("A.B2c.var'").unwrap();
    assert_eq!(res.span, vec![10]);
    let res = QVarId::recognize("A.B");
    assert_eq!(res, Err(Error::Regex(regex::Error::NoMatch)));
}

#[test]
fn qvarid_reserved_word_is_filtered() {
    assert_eq!(
        QVarId::recognize("case"),
        Err(Error::FoundConflictingLexeme)
    );
    assert_eq!(
        QVarId::recognize("where"),
        Err(Error::FoundConflictingLexeme)
    );
    // a longer identifier only starting with a reserved word passes
    let res = QVarId::recognize("cases").unwrap();
    assert_eq!(res.span, vec![5]);
}

#[test]
fn anchored_match_is_rejected_when_distant() {
    assert_eq!(
        QConId::recognize("aB"),
        Err(Error::Regex(regex::Error::DistantMatch))
    );
    assert_eq!(
        QVarId::recognize(".x"),
        Err(Error::Regex(regex::Error::DistantMatch))
    );
    assert_eq!(
        QConSym::recognize("x:"),
        Err(Error::Regex(regex::Error::DistantMatch))
    );
}

#[test]
fn qvarsym_matches() {
    let res = QVarSym::recognize("+:+").unwrap();
    assert_eq!(res.span, vec![3]);
    let res = QVarSym::recognize("A.+ x").unwrap();
    assert_eq!(res.span, vec![3]);
    // a reserved operator is filtered out
    assert_eq!(
        QVarSym::recognize("->x"),
        Err(Error::FoundConflictingLexeme)
    );
    // no symbol run at all: the empty match
    let res = QVarSym::recognize("xyz").unwrap();
    assert_eq!(res.span, vec![0]);
}

#[test]
fn qconsym_matches() {
    let res = QConSym::recognize(":+").unwrap();
    assert_eq!(res.span, vec![2]);
    let res = QConSym::recognize("A.:< y").unwrap();
    assert_eq!(res.span, vec![4]);
    // the bare colon is a reserved operator and is filtered out
    assert_eq!(
        QConSym::recognize(":"),
        Err(Error::FoundConflictingLexeme)
    );
    assert_eq!(
        QConSym::recognize("abc"),
        Err(Error::Regex(regex::Error::NoMatch))
    );
}
