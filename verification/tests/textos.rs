use tareas::texto::{texto_en_blanco, texto_le};

#[test]
fn vacio_es_blanco() {
    assert!(texto_en_blanco(""));
}

#[test]
fn espacios_y_tabulaciones_son_blanco() {
    assert!(texto_en_blanco("  "));
    assert!(texto_en_blanco(" \t \n \r "));
}

#[test]
fn texto_con_letras_no_es_blanco() {
    assert!(!texto_en_blanco("a"));
    assert!(!texto_en_blanco("  hola  "));
}

#[test]
fn orden_lexicografico() {
    assert!(texto_le("Compras", "Estudio"));
    assert!(!texto_le("Trabajo", "Personal"));
    assert!(texto_le("", "a"));
    assert!(texto_le("abc", "abc"));
    assert!(texto_le("ab", "abc"));
    assert!(!texto_le("abc", "ab"));
    assert!(texto_le("abra", "abrazo"));
}
