use cvars::{DeriveError, Error, NameTable, Value, VariantDecl};

#[derive(Debug, PartialEq, Clone, Copy)]
enum GameModes {
    CaptureTheFlag,
    TeamDeathMatch,
    FreeForAll,
    ControlPoint,
}

const GAME_MODES: [GameModes; 4] = [
    GameModes::CaptureTheFlag,
    GameModes::TeamDeathMatch,
    GameModes::FreeForAll,
    GameModes::ControlPoint,
];

fn decl(ident: &str, aliases: &[&str]) -> VariantDecl {
    VariantDecl {
        ident: ident.to_string(),
        aliases: aliases.iter().map(|a| a.to_string()).collect(),
        has_fields: false,
    }
}

fn game_modes_table() -> NameTable {
    let decls = vec![
        decl("CaptureTheFlag", &["ctf"]),
        decl("TeamDeathMatch", &["tdm"]),
        decl("FreeForAll", &["ffa"]),
        decl("ControlPoint", &["cp"]),
    ];
    NameTable::build(&decls).unwrap()
}

impl Value for GameModes {
    fn parse(s: &str) -> Result<Self, Error> {
        game_modes_table().lookup(s).map(|i| GAME_MODES[i])
    }

    fn validate(s: &str) -> Result<Vec<String>, Error> {
        Ok(game_modes_table().complete(s))
    }
}

#[derive(Debug, PartialEq, Clone, Copy)]
enum Pair {
    A,
    B,
}

impl Value for Pair {
    fn parse(s: &str) -> Result<Self, Error> {
        let decls = vec![decl("A", &["a1"]), decl("B", &[])];
        NameTable::build(&decls).unwrap().lookup(s).map(|i| [Pair::A, Pair::B][i])
    }

    fn validate(s: &str) -> Result<Vec<String>, Error> {
        let decls = vec![decl("A", &["a1"]), decl("B", &[])];
        Ok(NameTable::build(&decls).unwrap().complete(s))
    }
}

#[test]
fn test() {
    let r = GameModes::validate("c").unwrap();
    println!("{:#?}", r);
}

#[test]
fn game_modes_complete_in_declaration_order() {
    let r = GameModes::validate("c").unwrap();
    assert_eq!(r, vec!["capture_the_flag", "ctf", "control_point", "cp"]);
    assert_eq!(GameModes::validate("").unwrap().len(), 8);
    assert!(GameModes::validate("x").unwrap().is_empty());
}

#[test]
fn game_modes_parse_names_and_aliases() {
    assert_eq!(GameModes::parse("team_death_match"), Ok(GameModes::TeamDeathMatch));
    assert_eq!(GameModes::parse("tdm"), Ok(GameModes::TeamDeathMatch));
    assert_eq!(GameModes::parse("ffa"), Ok(GameModes::FreeForAll));
    assert_eq!(GameModes::parse("cp"), Ok(GameModes::ControlPoint));
    assert_eq!(
        GameModes::parse("CaptureTheFlag"),
        Err(Error::InvalidValue { value: "CaptureTheFlag".to_string() })
    );
}

#[test]
fn enum_with_alias_round_trips() {
    assert_eq!(Pair::parse("a"), Ok(Pair::A));
    // snake case puts an underscore between a letter and a digit
    assert_eq!(Pair::parse("a_1"), Ok(Pair::A));
    assert_eq!(Pair::parse("a1"), Err(Error::invalid_value("a1")));
    assert_eq!(Pair::parse("b"), Ok(Pair::B));
    assert_eq!(Pair::parse(""), Err(Error::EmptyValue));
    assert_eq!(Pair::parse("zzz"), Err(Error::invalid_value("zzz")));
    assert_eq!(Pair::validate("a").unwrap(), vec!["a", "a_1"]);
}

#[test]
fn names_are_snake_cased() {
    let decls = vec![decl("HTTPServer", &["Fast Mode"])];
    let table = NameTable::build(&decls).unwrap();
    assert_eq!(table.complete(""), vec!["http_server", "fast_mode"]);
    assert_eq!(table.lookup("fast_mode"), Ok(0));
}

#[test]
fn fielded_variant_is_refused() {
    let mut with_fields = decl("Custom", &[]);
    with_fields.has_fields = true;
    let decls = vec![decl("A", &[]), with_fields, decl("C", &[])];
    assert_eq!(
        NameTable::build(&decls).err(),
        Some(DeriveError::FieldsOnVariant { variant: 1 })
    );
}

#[test]
fn first_declared_name_wins() {
    let decls = vec![decl("Fast", &[]), decl("Quick", &["fast"])];
    let table = NameTable::build(&decls).unwrap();
    assert_eq!(table.lookup("fast"), Ok(0));
    assert_eq!(table.lookup("quick"), Ok(1));
}

#[test]
fn table_from_canonical_names() {
    let names = vec!["slow".to_string(), "normal".to_string(), "fast".to_string(), "quick".to_string()];
    let table = NameTable::from_canonical(names, vec![0, 1, 2, 2]).unwrap();
    assert_eq!(table.lookup("quick"), Ok(2));
    assert_eq!(table.lookup("normal"), Ok(1));
    assert_eq!(table.lookup(""), Err(Error::EmptyValue));
    assert_eq!(table.lookup("Slow"), Err(Error::invalid_value("Slow")));
    assert_eq!(table.complete("f"), vec!["fast"]);
    assert!(NameTable::from_canonical(vec!["a".to_string()], vec![]).is_none());
}
