use vstd::prelude::*;
use vstd::utf8::encode_utf8;

verus! {

/// A message for the log: a note, or an error.
pub enum LogMessage {
    Info(String),
    Error(String),
}

/// The bytes that the log file receives for `m`: a tag that tells its kind, the
/// text, and an end of line.
pub open spec fn linea_de_registro(m: LogMessage) -> Seq<u8> {
    match m {
        LogMessage::Info(s) => encode_utf8("[INFO]: "@) + encode_utf8(s@) + seq![0x0au8],
        LogMessage::Error(s) => encode_utf8("[Error]: "@) + encode_utf8(s@) + seq![0x0au8],
    }
}

impl LogMessage {
    /// The bytes that the log file receives for this message.
    pub fn linea(&self) -> (r: Vec<u8>)
        ensures
            r@ == linea_de_registro(*self),
    {
        let mut r: Vec<u8> = Vec::new();
        let texto = match self {
            LogMessage::Info(s) => {
                r.extend_from_slice("[INFO]: ".as_bytes());
                s
            },
            LogMessage::Error(s) => {
                r.extend_from_slice("[Error]: ".as_bytes());
                s
            },
        };
        let ghost antes = r@;
        r.extend_from_slice(texto.as_str().as_bytes());
        assert(r@ =~= antes + encode_utf8(texto@));
        r.push(0x0a);
        proof {
            match self {
                LogMessage::Info(s) => {
                    assert(r@ =~= linea_de_registro(*self));
                },
                LogMessage::Error(s) => {
                    assert(r@ =~= linea_de_registro(*self));
                },
            }
        }
        r
    }
}

/// The ASCII bytes of the text `[Error]: `.
pub open spec fn etiqueta_error() -> Seq<u8> {
    seq![0x5bu8, 0x45, 0x72, 0x72, 0x6f, 0x72, 0x5d, 0x3a, 0x20]
}

/// The ASCII bytes of the text `[INFO]: `.
pub open spec fn etiqueta_info() -> Seq<u8> {
    seq![0x5bu8, 0x49, 0x4e, 0x46, 0x4f, 0x5d, 0x3a, 0x20]
}

/// Every log line is its tag, the text's bytes and one end of line: an error is
/// tagged `[Error]: ` and a note `[INFO]: `, whatever the text.
pub proof fn ley_linea_de_registro(s: String)
    ensures
        linea_de_registro(LogMessage::Error(s)) == etiqueta_error() + encode_utf8(s@) + seq![0x0au8],
        linea_de_registro(LogMessage::Info(s)) == etiqueta_info() + encode_utf8(s@) + seq![0x0au8],
{
    reveal_strlit("[Error]: ");
    reveal_strlit("[INFO]: ");
    vstd::utf8::is_ascii_chars_encode_utf8("[Error]: "@);
    vstd::utf8::is_ascii_chars_encode_utf8("[INFO]: "@);
    assert(encode_utf8("[Error]: "@) =~= etiqueta_error());
    assert(encode_utf8("[INFO]: "@) =~= etiqueta_info());
}

} // verus!
