use tareas::modelo::{Campo, Fallo};
use tareas::texto::entero_a_texto;

#[test]
fn numeros_en_decimal() {
    assert_eq!(entero_a_texto(0), "0");
    assert_eq!(entero_a_texto(7), "7");
    assert_eq!(entero_a_texto(10), "10");
    assert_eq!(entero_a_texto(9999), "9999");
    assert_eq!(entero_a_texto(-1), "-1");
    assert_eq!(entero_a_texto(-407), "-407");
    assert_eq!(entero_a_texto(i64::MAX), "9223372036854775807");
    assert_eq!(entero_a_texto(i64::MIN), "-9223372036854775808");
}

#[test]
fn mensajes_de_fallo() {
    assert_eq!(
        Fallo::Validacion { campo: Campo::Titulo }.mensaje(),
        "El título no puede estar vacío"
    );
    assert_eq!(
        Fallo::Validacion { campo: Campo::Descripcion }.mensaje(),
        "La descripción no puede estar vacía"
    );
    assert_eq!(
        Fallo::Referencia { categoria_id: 9999 }.mensaje(),
        "La categoría con ID 9999 no existe"
    );
    assert_eq!(Fallo::NoEncontrada { tarea_id: 42 }.mensaje(), "La tarea con ID 42 no existe");
    assert_eq!(Fallo::Persistencia.mensaje(), "Error de persistencia");
}
