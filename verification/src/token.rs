//! The lexical tokens of the language and the table of their fixed spellings.
use vstd::prelude::*;

verus! {

/// A lexical token. Identifiers, numeric literals and string literals carry their
/// text; a numeric literal is kept as it was written. Tokens carry no position.
#[derive(Debug, PartialEq, Eq)]
pub enum TokenType {
    // Brackets
    LeftPar,
    RightPar,
    LeftBrace,
    RightBrace,
    LeftBrack,
    RightBrack,
    // Terminators and blanks
    Semicolon,
    Comma,
    Whitespace,
    Newline,
    // Arithmetic operators
    Add,
    Minus,
    Multiply,
    Divide,
    // Assignment
    Assign,
    // Comparison operators
    Equal,
    NotEqual,
    Less,
    LessEqual,
    Greater,
    GreaterEqual,
    // Literals
    Id(String),
    NumValue(String),
    StringValue(String),
    True,
    False,
    // Keywords
    Mod,
    EndMod,
    Proc,
    EndProc,
    Func,
    EndFunc,
    Local,
    Var,
    Pers,
    Inout,
    If,
    Then,
    ElseIf,
    EndIf,
    While,
    EndWhile,
    For,
    EndFor,
    Return,
    // Data types
    NumType,
    StringType,
    BoolType,
    // Standard procedures
    TpWrite,
}

/// The mathematical value of a token: the same variants, with texts as sequences
/// of characters.
#[allow(missing_docs)]
pub enum TokenView {
    // Brackets
    LeftPar,
    RightPar,
    LeftBrace,
    RightBrace,
    LeftBrack,
    RightBrack,
    // Terminators and blanks
    Semicolon,
    Comma,
    Whitespace,
    Newline,
    // Arithmetic operators
    Add,
    Minus,
    Multiply,
    Divide,
    // Assignment
    Assign,
    // Comparison operators
    Equal,
    NotEqual,
    Less,
    LessEqual,
    Greater,
    GreaterEqual,
    // Literals
    Id(Seq<char>),
    NumValue(Seq<char>),
    StringValue(Seq<char>),
    True,
    False,
    // Keywords
    Mod,
    EndMod,
    Proc,
    EndProc,
    Func,
    EndFunc,
    Local,
    Var,
    Pers,
    Inout,
    If,
    Then,
    ElseIf,
    EndIf,
    While,
    EndWhile,
    For,
    EndFor,
    Return,
    // Data types
    NumType,
    StringType,
    BoolType,
    // Standard procedures
    TpWrite,
}

impl View for TokenType {
    type V = TokenView;

    open spec fn view(&self) -> TokenView {
        match self {
            TokenType::LeftPar => TokenView::LeftPar,
            TokenType::RightPar => TokenView::RightPar,
            TokenType::LeftBrace => TokenView::LeftBrace,
            TokenType::RightBrace => TokenView::RightBrace,
            TokenType::LeftBrack => TokenView::LeftBrack,
            TokenType::RightBrack => TokenView::RightBrack,
            TokenType::Semicolon => TokenView::Semicolon,
            TokenType::Comma => TokenView::Comma,
            TokenType::Whitespace => TokenView::Whitespace,
            TokenType::Newline => TokenView::Newline,
            TokenType::Add => TokenView::Add,
            TokenType::Minus => TokenView::Minus,
            TokenType::Multiply => TokenView::Multiply,
            TokenType::Divide => TokenView::Divide,
            TokenType::Assign => TokenView::Assign,
            TokenType::Equal => TokenView::Equal,
            TokenType::NotEqual => TokenView::NotEqual,
            TokenType::Less => TokenView::Less,
            TokenType::LessEqual => TokenView::LessEqual,
            TokenType::Greater => TokenView::Greater,
            TokenType::GreaterEqual => TokenView::GreaterEqual,
            TokenType::True => TokenView::True,
            TokenType::False => TokenView::False,
            TokenType::Mod => TokenView::Mod,
            TokenType::EndMod => TokenView::EndMod,
            TokenType::Proc => TokenView::Proc,
            TokenType::EndProc => TokenView::EndProc,
            TokenType::Func => TokenView::Func,
            TokenType::EndFunc => TokenView::EndFunc,
            TokenType::Local => TokenView::Local,
            TokenType::Var => TokenView::Var,
            TokenType::Pers => TokenView::Pers,
            TokenType::Inout => TokenView::Inout,
            TokenType::If => TokenView::If,
            TokenType::Then => TokenView::Then,
            TokenType::ElseIf => TokenView::ElseIf,
            TokenType::EndIf => TokenView::EndIf,
            TokenType::While => TokenView::While,
            TokenType::EndWhile => TokenView::EndWhile,
            TokenType::For => TokenView::For,
            TokenType::EndFor => TokenView::EndFor,
            TokenType::Return => TokenView::Return,
            TokenType::NumType => TokenView::NumType,
            TokenType::StringType => TokenView::StringType,
            TokenType::BoolType => TokenView::BoolType,
            TokenType::TpWrite => TokenView::TpWrite,
            TokenType::Id(s) => TokenView::Id(s@),
            TokenType::NumValue(s) => TokenView::NumValue(s@),
            TokenType::StringValue(s) => TokenView::StringValue(s@),
        }
    }
}

impl Clone for TokenType {
    fn clone(&self) -> (r: Self)
        ensures
            r == *self,
    {
        match self {
            TokenType::LeftPar => TokenType::LeftPar,
            TokenType::RightPar => TokenType::RightPar,
            TokenType::LeftBrace => TokenType::LeftBrace,
            TokenType::RightBrace => TokenType::RightBrace,
            TokenType::LeftBrack => TokenType::LeftBrack,
            TokenType::RightBrack => TokenType::RightBrack,
            TokenType::Semicolon => TokenType::Semicolon,
            TokenType::Comma => TokenType::Comma,
            TokenType::Whitespace => TokenType::Whitespace,
            TokenType::Newline => TokenType::Newline,
            TokenType::Add => TokenType::Add,
            TokenType::Minus => TokenType::Minus,
            TokenType::Multiply => TokenType::Multiply,
            TokenType::Divide => TokenType::Divide,
            TokenType::Assign => TokenType::Assign,
            TokenType::Equal => TokenType::Equal,
            TokenType::NotEqual => TokenType::NotEqual,
            TokenType::Less => TokenType::Less,
            TokenType::LessEqual => TokenType::LessEqual,
            TokenType::Greater => TokenType::Greater,
            TokenType::GreaterEqual => TokenType::GreaterEqual,
            TokenType::True => TokenType::True,
            TokenType::False => TokenType::False,
            TokenType::Mod => TokenType::Mod,
            TokenType::EndMod => TokenType::EndMod,
            TokenType::Proc => TokenType::Proc,
            TokenType::EndProc => TokenType::EndProc,
            TokenType::Func => TokenType::Func,
            TokenType::EndFunc => TokenType::EndFunc,
            TokenType::Local => TokenType::Local,
            TokenType::Var => TokenType::Var,
            TokenType::Pers => TokenType::Pers,
            TokenType::Inout => TokenType::Inout,
            TokenType::If => TokenType::If,
            TokenType::Then => TokenType::Then,
            TokenType::ElseIf => TokenType::ElseIf,
            TokenType::EndIf => TokenType::EndIf,
            TokenType::While => TokenType::While,
            TokenType::EndWhile => TokenType::EndWhile,
            TokenType::For => TokenType::For,
            TokenType::EndFor => TokenType::EndFor,
            TokenType::Return => TokenType::Return,
            TokenType::NumType => TokenType::NumType,
            TokenType::StringType => TokenType::StringType,
            TokenType::BoolType => TokenType::BoolType,
            TokenType::TpWrite => TokenType::TpWrite,
            TokenType::Id(s) => TokenType::Id(s.clone()),
            TokenType::NumValue(s) => TokenType::NumValue(s.clone()),
            TokenType::StringValue(s) => TokenType::StringValue(s.clone()),
        }
    }
}

/// `c` with an ASCII lower-case letter replaced by its upper-case form.
pub open spec fn upper(c: char) -> char {
    if 'a' <= c && c <= 'z' {
        ((c as u32) - 32) as char
    } else {
        c
    }
}

/// The number of entries of the spelling table.
pub const TABLE_LEN: usize = 47;

/// The spelling of entry `i` of the table. The order of the entries is the order
/// in which the tokenizer tries them.
pub open spec fn spelling(i: int) -> Seq<char> {
    if i == 0 {
        ";"@
    } else if i == 1 {
        ","@
    } else if i == 2 {
        "\n"@
    } else if i == 3 {
        " "@
    } else if i == 4 {
        "\t"@
    } else if i == 5 {
        "("@
    } else if i == 6 {
        ")"@
    } else if i == 7 {
        "{"@
    } else if i == 8 {
        "}"@
    } else if i == 9 {
        "["@
    } else if i == 10 {
        "]"@
    } else if i == 11 {
        "+"@
    } else if i == 12 {
        "-"@
    } else if i == 13 {
        "*"@
    } else if i == 14 {
        "/"@
    } else if i == 15 {
        "="@
    } else if i == 16 {
        "<>"@
    } else if i == 17 {
        "<="@
    } else if i == 18 {
        "<"@
    } else if i == 19 {
        ">="@
    } else if i == 20 {
        ">"@
    } else if i == 21 {
        ":="@
    } else if i == 22 {
        "MOD"@
    } else if i == 23 {
        "ENDMOD"@
    } else if i == 24 {
        "PROC"@
    } else if i == 25 {
        "ENDPROC"@
    } else if i == 26 {
        "FUNC"@
    } else if i == 27 {
        "ENDFUNC"@
    } else if i == 28 {
        "LOCAL"@
    } else if i == 29 {
        "VAR"@
    } else if i == 30 {
        "PERS"@
    } else if i == 31 {
        "INOUT"@
    } else if i == 32 {
        "IF"@
    } else if i == 33 {
        "THEN"@
    } else if i == 34 {
        "ELSEIF"@
    } else if i == 35 {
        "ENDIF"@
    } else if i == 36 {
        "WHILE"@
    } else if i == 37 {
        "ENDWHILE"@
    } else if i == 38 {
        "FOR"@
    } else if i == 39 {
        "ENDFOR"@
    } else if i == 40 {
        "RETURN"@
    } else if i == 41 {
        "TPWRITE"@
    } else if i == 42 {
        "TRUE"@
    } else if i == 43 {
        "FALSE"@
    } else if i == 44 {
        "num"@
    } else if i == 45 {
        "string"@
    } else {
        "bool"@
    }
}

/// The token that entry `i` of the table stands for.
pub open spec fn table_token(i: int) -> TokenView {
    if i == 0 {
        TokenView::Semicolon
    } else if i == 1 {
        TokenView::Comma
    } else if i == 2 {
        TokenView::Newline
    } else if i == 3 {
        TokenView::Whitespace
    } else if i == 4 {
        TokenView::Whitespace
    } else if i == 5 {
        TokenView::LeftPar
    } else if i == 6 {
        TokenView::RightPar
    } else if i == 7 {
        TokenView::LeftBrace
    } else if i == 8 {
        TokenView::RightBrace
    } else if i == 9 {
        TokenView::LeftBrack
    } else if i == 10 {
        TokenView::RightBrack
    } else if i == 11 {
        TokenView::Add
    } else if i == 12 {
        TokenView::Minus
    } else if i == 13 {
        TokenView::Multiply
    } else if i == 14 {
        TokenView::Divide
    } else if i == 15 {
        TokenView::Equal
    } else if i == 16 {
        TokenView::NotEqual
    } else if i == 17 {
        TokenView::LessEqual
    } else if i == 18 {
        TokenView::Less
    } else if i == 19 {
        TokenView::GreaterEqual
    } else if i == 20 {
        TokenView::Greater
    } else if i == 21 {
        TokenView::Assign
    } else if i == 22 {
        TokenView::Mod
    } else if i == 23 {
        TokenView::EndMod
    } else if i == 24 {
        TokenView::Proc
    } else if i == 25 {
        TokenView::EndProc
    } else if i == 26 {
        TokenView::Func
    } else if i == 27 {
        TokenView::EndFunc
    } else if i == 28 {
        TokenView::Local
    } else if i == 29 {
        TokenView::Var
    } else if i == 30 {
        TokenView::Pers
    } else if i == 31 {
        TokenView::Inout
    } else if i == 32 {
        TokenView::If
    } else if i == 33 {
        TokenView::Then
    } else if i == 34 {
        TokenView::ElseIf
    } else if i == 35 {
        TokenView::EndIf
    } else if i == 36 {
        TokenView::While
    } else if i == 37 {
        TokenView::EndWhile
    } else if i == 38 {
        TokenView::For
    } else if i == 39 {
        TokenView::EndFor
    } else if i == 40 {
        TokenView::Return
    } else if i == 41 {
        TokenView::TpWrite
    } else if i == 42 {
        TokenView::True
    } else if i == 43 {
        TokenView::False
    } else if i == 44 {
        TokenView::NumType
    } else if i == 45 {
        TokenView::StringType
    } else {
        TokenView::BoolType
    }
}

/// Entry `i` of the table: its spelling and its token.
pub fn table_entry(i: usize) -> (r: (&'static str, TokenType))
    requires
        i < TABLE_LEN,
    ensures
        r.0@ == spelling(i as int),
        r.1@ == table_token(i as int),
{
    if i == 0 {
        (";", TokenType::Semicolon)
    } else if i == 1 {
        (",", TokenType::Comma)
    } else if i == 2 {
        ("\n", TokenType::Newline)
    } else if i == 3 {
        (" ", TokenType::Whitespace)
    } else if i == 4 {
        ("\t", TokenType::Whitespace)
    } else if i == 5 {
        ("(", TokenType::LeftPar)
    } else if i == 6 {
        (")", TokenType::RightPar)
    } else if i == 7 {
        ("{", TokenType::LeftBrace)
    } else if i == 8 {
        ("}", TokenType::RightBrace)
    } else if i == 9 {
        ("[", TokenType::LeftBrack)
    } else if i == 10 {
        ("]", TokenType::RightBrack)
    } else if i == 11 {
        ("+", TokenType::Add)
    } else if i == 12 {
        ("-", TokenType::Minus)
    } else if i == 13 {
        ("*", TokenType::Multiply)
    } else if i == 14 {
        ("/", TokenType::Divide)
    } else if i == 15 {
        ("=", TokenType::Equal)
    } else if i == 16 {
        ("<>", TokenType::NotEqual)
    } else if i == 17 {
        ("<=", TokenType::LessEqual)
    } else if i == 18 {
        ("<", TokenType::Less)
    } else if i == 19 {
        (">=", TokenType::GreaterEqual)
    } else if i == 20 {
        (">", TokenType::Greater)
    } else if i == 21 {
        (":=", TokenType::Assign)
    } else if i == 22 {
        ("MOD", TokenType::Mod)
    } else if i == 23 {
        ("ENDMOD", TokenType::EndMod)
    } else if i == 24 {
        ("PROC", TokenType::Proc)
    } else if i == 25 {
        ("ENDPROC", TokenType::EndProc)
    } else if i == 26 {
        ("FUNC", TokenType::Func)
    } else if i == 27 {
        ("ENDFUNC", TokenType::EndFunc)
    } else if i == 28 {
        ("LOCAL", TokenType::Local)
    } else if i == 29 {
        ("VAR", TokenType::Var)
    } else if i == 30 {
        ("PERS", TokenType::Pers)
    } else if i == 31 {
        ("INOUT", TokenType::Inout)
    } else if i == 32 {
        ("IF", TokenType::If)
    } else if i == 33 {
        ("THEN", TokenType::Then)
    } else if i == 34 {
        ("ELSEIF", TokenType::ElseIf)
    } else if i == 35 {
        ("ENDIF", TokenType::EndIf)
    } else if i == 36 {
        ("WHILE", TokenType::While)
    } else if i == 37 {
        ("ENDWHILE", TokenType::EndWhile)
    } else if i == 38 {
        ("FOR", TokenType::For)
    } else if i == 39 {
        ("ENDFOR", TokenType::EndFor)
    } else if i == 40 {
        ("RETURN", TokenType::Return)
    } else if i == 41 {
        ("TPWRITE", TokenType::TpWrite)
    } else if i == 42 {
        ("TRUE", TokenType::True)
    } else if i == 43 {
        ("FALSE", TokenType::False)
    } else if i == 44 {
        ("num", TokenType::NumType)
    } else if i == 45 {
        ("string", TokenType::StringType)
    } else {
        ("bool", TokenType::BoolType)
    }
}


/// The spellings of the table, character by character.
pub proof fn lemma_spellings()
    ensures
        spelling(0) == seq![';'],
        spelling(1) == seq![','],
        spelling(2) == seq!['\n'],
        spelling(3) == seq![' '],
        spelling(4) == seq!['\t'],
        spelling(5) == seq!['('],
        spelling(6) == seq![')'],
        spelling(7) == seq!['{'],
        spelling(8) == seq!['}'],
        spelling(9) == seq!['['],
        spelling(10) == seq![']'],
        spelling(11) == seq!['+'],
        spelling(12) == seq!['-'],
        spelling(13) == seq!['*'],
        spelling(14) == seq!['/'],
        spelling(15) == seq!['='],
        spelling(16) == seq!['<', '>'],
        spelling(17) == seq!['<', '='],
        spelling(18) == seq!['<'],
        spelling(19) == seq!['>', '='],
        spelling(20) == seq!['>'],
        spelling(21) == seq![':', '='],
        spelling(22) == seq!['M', 'O', 'D'],
        spelling(23) == seq!['E', 'N', 'D', 'M', 'O', 'D'],
        spelling(24) == seq!['P', 'R', 'O', 'C'],
        spelling(25) == seq!['E', 'N', 'D', 'P', 'R', 'O', 'C'],
        spelling(26) == seq!['F', 'U', 'N', 'C'],
        spelling(27) == seq!['E', 'N', 'D', 'F', 'U', 'N', 'C'],
        spelling(28) == seq!['L', 'O', 'C', 'A', 'L'],
        spelling(29) == seq!['V', 'A', 'R'],
        spelling(30) == seq!['P', 'E', 'R', 'S'],
        spelling(31) == seq!['I', 'N', 'O', 'U', 'T'],
        spelling(32) == seq!['I', 'F'],
        spelling(33) == seq!['T', 'H', 'E', 'N'],
        spelling(34) == seq!['E', 'L', 'S', 'E', 'I', 'F'],
        spelling(35) == seq!['E', 'N', 'D', 'I', 'F'],
        spelling(36) == seq!['W', 'H', 'I', 'L', 'E'],
        spelling(37) == seq!['E', 'N', 'D', 'W', 'H', 'I', 'L', 'E'],
        spelling(38) == seq!['F', 'O', 'R'],
        spelling(39) == seq!['E', 'N', 'D', 'F', 'O', 'R'],
        spelling(40) == seq!['R', 'E', 'T', 'U', 'R', 'N'],
        spelling(41) == seq!['T', 'P', 'W', 'R', 'I', 'T', 'E'],
        spelling(42) == seq!['T', 'R', 'U', 'E'],
        spelling(43) == seq!['F', 'A', 'L', 'S', 'E'],
        spelling(44) == seq!['n', 'u', 'm'],
        spelling(45) == seq!['s', 't', 'r', 'i', 'n', 'g'],
        spelling(46) == seq!['b', 'o', 'o', 'l'],
{
    reveal_strlit(";");
    reveal_strlit(",");
    reveal_strlit("\n");
    reveal_strlit(" ");
    reveal_strlit("\t");
    reveal_strlit("(");
    reveal_strlit(")");
    reveal_strlit("{");
    reveal_strlit("}");
    reveal_strlit("[");
    reveal_strlit("]");
    reveal_strlit("+");
    reveal_strlit("-");
    reveal_strlit("*");
    reveal_strlit("/");
    reveal_strlit("=");
    reveal_strlit("<>");
    reveal_strlit("<=");
    reveal_strlit("<");
    reveal_strlit(">=");
    reveal_strlit(">");
    reveal_strlit(":=");
    reveal_strlit("MOD");
    reveal_strlit("ENDMOD");
    reveal_strlit("PROC");
    reveal_strlit("ENDPROC");
    reveal_strlit("FUNC");
    reveal_strlit("ENDFUNC");
    reveal_strlit("LOCAL");
    reveal_strlit("VAR");
    reveal_strlit("PERS");
    reveal_strlit("INOUT");
    reveal_strlit("IF");
    reveal_strlit("THEN");
    reveal_strlit("ELSEIF");
    reveal_strlit("ENDIF");
    reveal_strlit("WHILE");
    reveal_strlit("ENDWHILE");
    reveal_strlit("FOR");
    reveal_strlit("ENDFOR");
    reveal_strlit("RETURN");
    reveal_strlit("TPWRITE");
    reveal_strlit("TRUE");
    reveal_strlit("FALSE");
    reveal_strlit("num");
    reveal_strlit("string");
    reveal_strlit("bool");
    assert(spelling(0) =~= seq![';']);
    assert(spelling(1) =~= seq![',']);
    assert(spelling(2) =~= seq!['\n']);
    assert(spelling(3) =~= seq![' ']);
    assert(spelling(4) =~= seq!['\t']);
    assert(spelling(5) =~= seq!['(']);
    assert(spelling(6) =~= seq![')']);
    assert(spelling(7) =~= seq!['{']);
    assert(spelling(8) =~= seq!['}']);
    assert(spelling(9) =~= seq!['[']);
    assert(spelling(10) =~= seq![']']);
    assert(spelling(11) =~= seq!['+']);
    assert(spelling(12) =~= seq!['-']);
    assert(spelling(13) =~= seq!['*']);
    assert(spelling(14) =~= seq!['/']);
    assert(spelling(15) =~= seq!['=']);
    assert(spelling(16) =~= seq!['<', '>']);
    assert(spelling(17) =~= seq!['<', '=']);
    assert(spelling(18) =~= seq!['<']);
    assert(spelling(19) =~= seq!['>', '=']);
    assert(spelling(20) =~= seq!['>']);
    assert(spelling(21) =~= seq![':', '=']);
    assert(spelling(22) =~= seq!['M', 'O', 'D']);
    assert(spelling(23) =~= seq!['E', 'N', 'D', 'M', 'O', 'D']);
    assert(spelling(24) =~= seq!['P', 'R', 'O', 'C']);
    assert(spelling(25) =~= seq!['E', 'N', 'D', 'P', 'R', 'O', 'C']);
    assert(spelling(26) =~= seq!['F', 'U', 'N', 'C']);
    assert(spelling(27) =~= seq!['E', 'N', 'D', 'F', 'U', 'N', 'C']);
    assert(spelling(28) =~= seq!['L', 'O', 'C', 'A', 'L']);
    assert(spelling(29) =~= seq!['V', 'A', 'R']);
    assert(spelling(30) =~= seq!['P', 'E', 'R', 'S']);
    assert(spelling(31) =~= seq!['I', 'N', 'O', 'U', 'T']);
    assert(spelling(32) =~= seq!['I', 'F']);
    assert(spelling(33) =~= seq!['T', 'H', 'E', 'N']);
    assert(spelling(34) =~= seq!['E', 'L', 'S', 'E', 'I', 'F']);
    assert(spelling(35) =~= seq!['E', 'N', 'D', 'I', 'F']);
    assert(spelling(36) =~= seq!['W', 'H', 'I', 'L', 'E']);
    assert(spelling(37) =~= seq!['E', 'N', 'D', 'W', 'H', 'I', 'L', 'E']);
    assert(spelling(38) =~= seq!['F', 'O', 'R']);
    assert(spelling(39) =~= seq!['E', 'N', 'D', 'F', 'O', 'R']);
    assert(spelling(40) =~= seq!['R', 'E', 'T', 'U', 'R', 'N']);
    assert(spelling(41) =~= seq!['T', 'P', 'W', 'R', 'I', 'T', 'E']);
    assert(spelling(42) =~= seq!['T', 'R', 'U', 'E']);
    assert(spelling(43) =~= seq!['F', 'A', 'L', 'S', 'E']);
    assert(spelling(44) =~= seq!['n', 'u', 'm']);
    assert(spelling(45) =~= seq!['s', 't', 'r', 'i', 'n', 'g']);
    assert(spelling(46) =~= seq!['b', 'o', 'o', 'l']);
}

/// No spelling is the beginning of a longer spelling that comes later in the
/// table, ASCII case ignored: the two differ within the shorter one. So the first
/// entry that matches at a position is also the longest that matches there.
pub proof fn lemma_table_order(i: int, j: int)
    requires
        0 <= i < j < TABLE_LEN,
        spelling(i).len() < spelling(j).len(),
    ensures
        exists|k: int|
            0 <= k < spelling(i).len() && upper(spelling(i)[k]) != upper(#[trigger] spelling(j)[k]),
{
    lemma_spellings();
    let a = spelling(i);
    let b = spelling(j);
    if upper(a[0]) != upper(b[0]) {
        assert(0 <= 0 < a.len() && upper(a[0]) != upper(b[0]));
    } else if a.len() > 1 && upper(a[1]) != upper(b[1]) {
        assert(0 <= 1 < a.len() && upper(a[1]) != upper(b[1]));
    } else if a.len() > 2 && upper(a[2]) != upper(b[2]) {
        assert(0 <= 2 < a.len() && upper(a[2]) != upper(b[2]));
    } else if a.len() > 3 && upper(a[3]) != upper(b[3]) {
        assert(0 <= 3 < a.len() && upper(a[3]) != upper(b[3]));
    } else if a.len() > 4 && upper(a[4]) != upper(b[4]) {
        assert(0 <= 4 < a.len() && upper(a[4]) != upper(b[4]));
    } else {
        assert(false);
    }
}

} // verus!
