# JKS premietanie piesní

Správa a premietanie liturgických piesní (JKS, hymny, antifóny, Taizé …): databáza piesní,
textové rozhranie na výber a úpravu piesní, riadenie premietania cez ESP32 na sériovom porte
a premietacie plátno na celú obrazovku.

## Rozloženie

- `src/` – knižnica overená nástrojom Verus:
  - `typ` – typy piesní a ich názvy,
  - `library_jks` – strofy, piesne a zoznam piesní zoradený podľa čísla,
  - `zoradenie` – stabilné zoradenie podľa kľúča,
  - `text` – znaky, čísla v texte, orezávanie, riadky,
  - `model`, `db` – riadky databázy a skladanie piesní z nich,
  - `import` – rozbor CSV a zoskupenie strof do piesní,
  - `file_opener` – úprava piesne v textovom súbore,
  - `seial_comunikator` – protokol zariadenia, stav premietania, delenie správ,
  - `nahravanie` – poradie zápisov pri nahrávaní piesní do zariadenia,
  - `song_lister` – zoznamy a strom piesní s hľadaním,
  - `app`, `ui` – rozhodovanie textového rozhrania a jeho texty,
  - `popups` – výzvy dialógov a vyhodnotenie odpovedí,
  - `platno` – stav premietacieho plátna.
- `app/` – program okolo knižnice: terminál, kreslenie, dialógy, editor, SQLite (Diesel),
  sériový port, JSON súbory, okno plátna (eframe) a výber monitora (winit).
  Spúšťa sa bez argumentu (textové rozhranie), alebo s `platno`, `monitor`, `import`.
- `tests/` – testy knižnice.
