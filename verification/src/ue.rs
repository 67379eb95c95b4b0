//! Models of the Unreal Engine containers and names that the hooks read and
//! write: `TArray`, `FString`, `FName`, and the hash-chained `TMap`.

pub mod array;
pub mod string;
pub mod name;
pub mod map;
