use asmvm::assembly::lexer::{LexErr, Lexer};
use asmvm::assembly::token::{Token, TokenType};

fn lines_of(source: &str) -> Vec<String> {
    source.split_inclusive('\n').map(|line| line.to_owned()).collect()
}

fn lex(source: &str) -> Result<Vec<Token>, LexErr> {
    Lexer::new(lines_of(source)).tokenize()
}

fn types_of(tokens: &[Token]) -> Vec<TokenType> {
    tokens.iter().map(|t| t.token_type).collect()
}

fn lexemes_of(tokens: &[Token]) -> Vec<String> {
    tokens.iter().map(|t| t.lexeme.clone()).collect()
}

#[test]
fn lexes_an_instruction_with_two_operands() {
    let tokens = lex("MOVI R0,5\n").unwrap();
    assert_eq!(
        types_of(&tokens),
        vec![TokenType::Movi, TokenType::Rg, TokenType::Comma, TokenType::IntImm]
    );
    assert_eq!(lexemes_of(&tokens), vec!["MOVI", "R0", ",", "5"]);
    assert!(tokens.iter().all(|t| t.line == 1));
}

#[test]
fn numbers_lines_from_one() {
    let tokens = lex("TRP 1\n\nTRP 0\n").unwrap();
    assert_eq!(tokens.len(), 4);
    assert_eq!(tokens[0].line, 1);
    assert_eq!(tokens[1].line, 1);
    assert_eq!(tokens[2].line, 3);
    assert_eq!(tokens[3].line, 3);
}

#[test]
fn drops_comments() {
    let tokens = lex("; a program\nADD R1, R2 ; sum, with \"quotes\"\n;\n").unwrap();
    assert_eq!(
        types_of(&tokens),
        vec![TokenType::Add, TokenType::Rg, TokenType::Comma, TokenType::Rg]
    );
    assert!(tokens.iter().all(|t| t.token_type != TokenType::Comment));
    assert!(tokens.iter().all(|t| t.line == 2));
}

#[test]
fn tells_labels_registers_and_mnemonics_apart() {
    let tokens = lex("loop: BNZ R12, loop\nR: JMP Rx\n").unwrap();
    assert_eq!(
        types_of(&tokens),
        vec![
            TokenType::Label,
            TokenType::Bnz,
            TokenType::Rg,
            TokenType::Comma,
            TokenType::LabelOp,
            TokenType::Label,
            TokenType::Jmp,
            TokenType::LabelOp,
        ]
    );
    assert_eq!(tokens[0].lexeme, "loop:");
    assert_eq!(tokens[4].lexeme, "loop");
    assert_eq!(tokens[7].lexeme, "Rx");
}

#[test]
fn prefers_the_longer_mnemonic() {
    let tokens = lex("MOV MOVI CMP CMPI MUL MULI DIV DIVI ADD ADI\n").unwrap();
    assert_eq!(
        types_of(&tokens),
        vec![
            TokenType::Mov,
            TokenType::Movi,
            TokenType::Cmp,
            TokenType::Cmpi,
            TokenType::Mul,
            TokenType::Muli,
            TokenType::Div,
            TokenType::Divi,
            TokenType::Add,
            TokenType::Adi,
        ]
    );
}

#[test]
fn lexes_every_mnemonic() {
    let tokens = lex(
        "JMP JMR BNZ BGT BLT BRZ BAL MOV MOVI LDA STR LDR STB LDB PUSH POP PEEK AND OR NOT CMP CMPI ADD ADI SUB MUL MULI DIV DIVI ALCI ALLC TRP\n",
    )
    .unwrap();
    assert_eq!(types_of(&tokens), asmvm::assembly::assembler::INS_TOKEN_TYPES.to_vec());
}

#[test]
fn mnemonics_are_case_sensitive() {
    let tokens = lex("jmp Jmp\n").unwrap();
    assert_eq!(types_of(&tokens), vec![TokenType::LabelOp, TokenType::LabelOp]);
}

#[test]
fn lexes_directives_and_literals() {
    let tokens = lex(".int #-12\n.byt 'a'\n.str \"Hello; World, twice\"\n.BYT '\\n'\n.INT 7\n").unwrap();
    assert_eq!(
        types_of(&tokens),
        vec![
            TokenType::IntDir,
            TokenType::IntImm,
            TokenType::BytDir,
            TokenType::CharImm,
            TokenType::StrDir,
            TokenType::StrImm,
            TokenType::BytDir,
            TokenType::CharImm,
            TokenType::IntDir,
            TokenType::IntImm,
        ]
    );
    assert_eq!(tokens[1].lexeme, "#-12");
    assert_eq!(tokens[3].lexeme, "'a'");
    assert_eq!(tokens[5].lexeme, "\"Hello; World, twice\"");
    assert_eq!(tokens[7].lexeme, "'\\n'");
}

#[test]
fn lexes_the_named_registers() {
    let tokens = lex("PC SP HP\n").unwrap();
    assert_eq!(types_of(&tokens), vec![TokenType::Pc, TokenType::Sp, TokenType::Hp]);
}

#[test]
fn lexes_a_blank_and_a_comma_in_quotes_as_characters() {
    let tokens = lex(".byt ' '\n.byt ','\n").unwrap();
    assert_eq!(
        types_of(&tokens),
        vec![TokenType::BytDir, TokenType::CharImm, TokenType::BytDir, TokenType::CharImm]
    );
    assert_eq!(tokens[1].lexeme, "' '");
    assert_eq!(tokens[3].lexeme, "','");
}

#[test]
fn rejects_an_unrecognized_lexeme_with_its_text_and_line() {
    match lex("TRP 0\nADD R1, @R2\n") {
        Err(LexErr::UnrecognizedLexeme(lexeme, line)) => {
            assert_eq!(lexeme, "@R2");
            assert_eq!(line, 2);
        }
        other => panic!("expected a lex error, got {:?}", other),
    }
}

#[test]
fn rejects_an_unterminated_string() {
    match lex(".str \"open\n") {
        Err(LexErr::UnrecognizedLexeme(lexeme, line)) => {
            assert_eq!(lexeme, "\"open");
            assert_eq!(line, 1);
        }
        other => panic!("expected a lex error, got {:?}", other),
    }
}

#[test]
fn hands_out_tokens_one_by_one() {
    let mut lexer = Lexer::new(lines_of("TRP 1 ; print\nTRP 0\n"));
    let first = lexer.next().unwrap().unwrap();
    assert_eq!(first.token_type, TokenType::Trp);
    assert_eq!(first.line, 1);
    let second = lexer.next().unwrap().unwrap();
    assert_eq!(second.token_type, TokenType::IntImm);
    assert_eq!(second.lexeme, "1");
    let third = lexer.next().unwrap().unwrap();
    assert_eq!(third.token_type, TokenType::Trp);
    assert_eq!(third.line, 2);
    let fourth = lexer.next().unwrap().unwrap();
    assert_eq!(fourth.lexeme, "0");
    assert!(lexer.next().unwrap().is_none());
    assert!(lexer.next().unwrap().is_none());
}

#[test]
fn goes_on_after_an_error() {
    let mut lexer = Lexer::new(lines_of("? TRP\n"));
    assert!(matches!(lexer.next(), Err(LexErr::UnrecognizedLexeme(_, 1))));
    assert_eq!(lexer.next().unwrap().unwrap().token_type, TokenType::Trp);
    assert!(lexer.next().unwrap().is_none());
}

#[test]
fn classifies_single_lexemes() {
    let type_of = |text: &str| Lexer::lexeme_type(&text.to_owned()).unwrap();
    assert_eq!(type_of("42"), Some(TokenType::IntImm));
    assert_eq!(type_of("#42"), Some(TokenType::IntImm));
    assert_eq!(type_of("+42"), Some(TokenType::IntImm));
    assert_eq!(type_of(","), Some(TokenType::Comma));
    assert_eq!(type_of("R0"), Some(TokenType::Rg));
    assert_eq!(type_of("R"), Some(TokenType::LabelOp));
    assert_eq!(type_of("; note"), Some(TokenType::Comment));
    assert_eq!(type_of("main:"), Some(TokenType::Label));
    assert_eq!(type_of("main"), Some(TokenType::LabelOp));
    assert_eq!(type_of("9lives"), None);
    assert_eq!(type_of(""), None);
}

#[test]
fn an_empty_source_has_no_tokens() {
    assert!(lex("").unwrap().is_empty());
    assert!(lex("\n\n   \n").unwrap().is_empty());
}

#[test]
fn the_first_rule_that_matches_gives_the_type() {
    let miss = Some(false);
    let hit = Some(true);
    assert_eq!(Lexer::rule_type(&[]).unwrap(), None);
    assert_eq!(Lexer::rule_type(&[miss; 46]).unwrap(), None);
    assert_eq!(Lexer::rule_type(&[hit]).unwrap(), Some(TokenType::IntImm));
    assert_eq!(Lexer::rule_type(&[miss, miss, miss, hit]).unwrap(), Some(TokenType::Comma));
    // a register has the shape of a label reference too: the earlier rule wins
    let mut outcomes = [miss; 46];
    outcomes[7] = hit;
    outcomes[45] = hit;
    assert_eq!(Lexer::rule_type(&outcomes).unwrap(), Some(TokenType::Rg));
    outcomes[7] = miss;
    assert_eq!(Lexer::rule_type(&outcomes).unwrap(), Some(TokenType::LabelOp));
    outcomes[44] = hit;
    assert_eq!(Lexer::rule_type(&outcomes).unwrap(), Some(TokenType::Label));
    outcomes[43] = hit;
    assert_eq!(Lexer::rule_type(&outcomes).unwrap(), Some(TokenType::Comment));
    // outcomes beyond the rules count for nothing
    let mut longer = vec![miss; 46];
    longer.push(hit);
    assert_eq!(Lexer::rule_type(&longer).unwrap(), None);
}

#[test]
fn a_refused_pattern_is_an_error_unless_an_earlier_rule_has_matched() {
    let miss = Some(false);
    let hit = Some(true);
    match Lexer::rule_type(&[miss, None, hit]) {
        Err(LexErr::InvalidPattern(pattern)) => assert_eq!(pattern, "^\"[^\"]*\"$"),
        other => panic!("unexpected result {:?}", other),
    }
    assert_eq!(Lexer::rule_type(&[miss, hit, None]).unwrap(), Some(TokenType::StrImm));
}

#[test]
fn a_typed_lexeme_becomes_a_token_a_comment_nothing() {
    let token = Lexer::token_of(String::from("ADD"), Some(TokenType::Add), 7).unwrap().unwrap();
    assert_eq!(token.token_type, TokenType::Add);
    assert_eq!(token.lexeme, "ADD");
    assert_eq!(token.line, 7);
    assert!(Lexer::token_of(String::from("; x"), Some(TokenType::Comment), 7).unwrap().is_none());
    match Lexer::token_of(String::from("@"), None, 9) {
        Err(LexErr::UnrecognizedLexeme(lexeme, 9)) => assert_eq!(lexeme, "@"),
        other => panic!("unexpected result {:?}", other),
    }
}

#[test]
fn reads_lines_and_lexemes_in_turn() {
    let mut lexer = Lexer::new(lines_of("ADD R1, R2\nTRP 0\n"));
    assert_eq!(lexer.next_lexeme(), None);
    let line = lexer.next_line().unwrap();
    assert_eq!(line, "ADD R1, R2\n");
    lexer.split_line_into_lexeme(&line).unwrap();
    assert_eq!(lexer.next_lexeme().unwrap(), "ADD");
    assert_eq!(lexer.next_lexeme().unwrap(), "R1");
    assert_eq!(lexer.next_lexeme().unwrap(), ",");
    assert_eq!(lexer.next_lexeme().unwrap(), "R2");
    assert_eq!(lexer.next_lexeme(), None);
    assert_eq!(lexer.next_line().unwrap(), "TRP 0\n");
    assert_eq!(lexer.next_line(), None);
    assert_eq!(lexer.next_line(), None);
}
