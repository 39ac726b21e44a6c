pub mod wasm_websocket;
